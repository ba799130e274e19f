use deft::base::EventContext;
use deft::computed::ComputedValueInner;
use deft::edit_history::{EditDetail, EditHistory, TextCoord};
use deft::element::{
    is_form_event, is_parent_of, js_event_kind, ElementIdSource, EventKind, FormState,
};
use deft::scroll::ScrollBarStrategy;

#[test]
fn js_event_names() {
    assert_eq!(js_event_kind("click"), Some(EventKind::Click));
    assert_eq!(js_event_kind("keydown"), Some(EventKind::KeyDown));
    assert_eq!(js_event_kind("hoveredfile"), Some(EventKind::HoveredFile));
    assert_eq!(js_event_kind("boundschange"), Some(EventKind::BoundsChange));
    assert_eq!(js_event_kind("Click"), None);
    assert_eq!(js_event_kind("caretchange"), None);
}

#[test]
fn form_events_and_disabled_elements() {
    assert!(is_form_event(EventKind::TextInput));
    assert!(is_form_event(EventKind::KeyUp));
    assert!(!is_form_event(EventKind::Focus));
    let mut form = FormState { is_form_element: true, disabled_attribute: false, focusable: true };
    assert!(!form.is_disabled());
    assert!(form.is_focusable());
    form.set_disabled(true);
    assert!(form.is_disabled());
    assert!(!form.is_focusable());
    let mut counter: u64 = 1;
    let mut ctx = EventContext::new(0u8, &mut counter);
    assert!(!form.block_event(EventKind::Focus, &mut ctx));
    assert!(!ctx.propagation_cancelled);
    assert!(form.block_event(EventKind::Click, &mut ctx));
    assert!(ctx.propagation_cancelled && ctx.prevent_default);
    let mut plain = FormState { is_form_element: false, disabled_attribute: false, focusable: true };
    plain.set_disabled(true);
    assert!(!plain.is_disabled());
    assert!(plain.is_focusable());
}

#[test]
fn element_ids_and_ancestors() {
    let mut ids = ElementIdSource::new();
    assert_eq!((ids.next_id(), ids.next_id(), ids.next_id()), (1, 2, 3));
    let parents = vec![None, Some(0), Some(1), Some(0)];
    assert!(is_parent_of(&parents, 0, 2));
    assert!(is_parent_of(&parents, 1, 2));
    assert!(!is_parent_of(&parents, 3, 2));
    assert!(!is_parent_of(&parents, 2, 0));
    assert!(!is_parent_of(&parents, 2, 2));
}

#[test]
fn dep_ids_count_up_across_removals() {
    fn ignore(_v: Vec<u8>) {}
    let mut inner: ComputedValueInner<u8, fn(Vec<u8>)> = ComputedValueInner::new();
    let a = inner.register_dep(&vec!["k".to_string()], ignore as fn(Vec<u8>));
    inner.unregister_dep(a);
    let b = inner.register_dep(&vec!["k".to_string()], ignore as fn(Vec<u8>));
    inner.update("k", 1);
    inner.unregister_dep(b);
    let c = inner.register_dep(&vec!["k".to_string()], ignore as fn(Vec<u8>));
    assert_eq!((a, b, c), (1, 2, 3));
}

#[test]
fn history_run_stays_within_limit() {
    let mut h = EditHistory::new(3);
    for i in 0..10usize {
        h.record_input(TextCoord(0, 2 * i), None, Some(EditDetail { content: " x".to_string(), end: TextCoord(0, 2 * i + 2) }));
        if i % 4 == 3 {
            h.undo();
            h.redo();
        }
    }
    let mut undone = 0;
    while h.undo().is_some() {
        undone += 1;
    }
    assert_eq!(undone, 3);
}

#[test]
fn event_ids_from_one_counter_increase() {
    let mut counter: u64 = 5;
    let a = EventContext::new((), &mut counter);
    let b = EventContext::new((), &mut counter);
    let c = EventContext::new((), &mut counter);
    assert_eq!((a.get_id(), b.get_id(), c.get_id()), (5, 6, 7));
}

#[test]
fn names_read_in_any_case() {
    assert_eq!(ScrollBarStrategy::from_str("AUTO"), Some(ScrollBarStrategy::Auto));
    assert_eq!(ScrollBarStrategy::from_str("aLwAyS"), Some(ScrollBarStrategy::Always));
}

#[test]
fn scroll_and_menu_decisions() {
    use_decisions();
}

fn use_decisions() {
    assert!(deft::scroll::takes_event(true, 3, 4));
    assert!(!deft::scroll::takes_event(true, 4, 4));
    assert!(!deft::scroll::takes_event(false, 3, 4));
    assert!(deft::editable::Editable::mouse_down_opens_menu(2));
    assert!(!deft::editable::Editable::mouse_down_opens_menu(0));
}
