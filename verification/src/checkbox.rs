use vstd::prelude::*;
use crate::label::Label;
use crate::element::{FormState, JsEventRegistry, listener_added};
use crate::error::DeftError;

verus! {

/// The event that a checkbox emits when its checked state changes.
pub struct ChangeEvent {}

/// A checkbox with a label; its check mark shows while it is checked. Its element is a form
/// element that registers the `change` script event.
pub struct Checkbox {
    label: Label,
    checked: bool,
    checked_attribute: bool,
    disabled_attribute: bool,
    js_registry: JsEventRegistry,
}

impl Checkbox {
    pub closed spec fn checked_spec(&self) -> bool {
        self.checked
    }

    pub closed spec fn label_spec(&self) -> Seq<char> {
        self.label.text_spec()
    }

    /// Whether the checkbox's element carries the `checked` attribute.
    pub closed spec fn checked_attribute_spec(&self) -> bool {
        self.checked_attribute
    }

    pub closed spec fn form_spec(&self) -> FormState {
        FormState { is_form_element: true, disabled_attribute: self.disabled_attribute, focusable: false }
    }

    fn form(&self) -> (res: FormState)
        ensures
            res == self.form_spec(),
    {
        FormState { is_form_element: true, disabled_attribute: self.disabled_attribute, focusable: false }
    }

    pub closed spec fn js_registry_spec(&self) -> JsEventRegistry {
        self.js_registry
    }

    /// A new checkbox: unchecked, with an empty label; a form element, enabled and not
    /// focusable, that registers the `change` script event.
    pub fn create() -> (res: Checkbox)
        ensures
            !res.checked_spec(),
            !res.checked_attribute_spec(),
            res.label_spec() == Seq::<char>::empty(),
            res.form_spec() == (FormState { is_form_element: true, disabled_attribute: false, focusable: false }),
            res.js_registry_spec().names_spec() == seq![seq!['c', 'h', 'a', 'n', 'g', 'e']],
            res.js_registry_spec().next_listener_id_spec() == 1,
    {
        let mut js_registry = JsEventRegistry::new();
        js_registry.register_js_event("change");
        proof {
            reveal_strlit("change");
            assert("change"@ =~= seq!['c', 'h', 'a', 'n', 'g', 'e']);
        }
        Checkbox {
            label: Label::new(),
            checked: false,
            checked_attribute: false,
            disabled_attribute: false,
            js_registry,
        }
    }

    pub fn set_label(&mut self, label: String)
        ensures
            final(self).label_spec() == label@,
            final(self).checked_spec() == old(self).checked_spec(),
            final(self).checked_attribute_spec() == old(self).checked_attribute_spec(),
            final(self).form_spec() == old(self).form_spec(),
            final(self).js_registry_spec() == old(self).js_registry_spec(),
    {
        self.label.set_text(label);
    }

    pub fn get_label(&self) -> (res: String)
        ensures
            res@ == self.label_spec(),
    {
        self.label.get_text()
    }

    pub fn is_checked(&self) -> (res: bool)
        ensures
            res == self.checked_spec(),
    {
        self.checked
    }

    /// Sets the checked state where it differs; returns whether it changed, in which case a
    /// change event is due.
    fn update_checked(&mut self, checked: bool) -> (changed: bool)
        ensures
            changed == (checked != old(self).checked_spec()),
            final(self).checked_spec() == checked,
            final(self).checked_attribute_spec() == old(self).checked_attribute_spec(),
            final(self).label_spec() == old(self).label_spec(),
            final(self).form_spec() == old(self).form_spec(),
            final(self).js_registry_spec() == old(self).js_registry_spec(),
    {
        if self.checked != checked {
            self.checked = checked;
            true
        } else {
            false
        }
    }

    /// Sets or removes the `checked` attribute, which the checked state follows; returns whether
    /// the state changed, in which case a change event is due.
    pub fn set_checked(&mut self, checked: bool) -> (changed: bool)
        ensures
            changed == (checked != old(self).checked_spec()),
            final(self).checked_spec() == checked,
            final(self).checked_attribute_spec() == checked,
            final(self).label_spec() == old(self).label_spec(),
            final(self).form_spec() == old(self).form_spec(),
            final(self).js_registry_spec() == old(self).js_registry_spec(),
    {
        self.checked_attribute = checked;
        self.update_checked(checked)
    }

    /// A click turns the check over, where the element takes it: a disabled form element does
    /// not (see `FormState::block_event`). Returns whether the state changed, in which case a
    /// change event is due.
    pub fn click(&mut self) -> (changed: bool)
        ensures
            changed == !old(self).form_spec().disabled_attribute,
            changed ==> final(self).checked_spec() == !old(self).checked_spec(),
            !changed ==> final(self).checked_spec() == old(self).checked_spec(),
            final(self).checked_attribute_spec() == old(self).checked_attribute_spec(),
            final(self).label_spec() == old(self).label_spec(),
            final(self).form_spec() == old(self).form_spec(),
            final(self).js_registry_spec() == old(self).js_registry_spec(),
    {
        if self.form().is_disabled() {
            return false;
        }
        let checked = !self.checked;
        self.update_checked(checked)
    }

    /// Follows a change of the element's attribute `key`: the checked state follows the
    /// `checked` attribute while it is present. Returns whether the checked state changed.
    pub fn on_attribute_changed(&mut self, key: &str, value: Option<&str>) -> (changed: bool)
        ensures
            key@ == "checked"@ ==> changed == ((value is Some) != old(self).checked_spec())
                && final(self).checked_spec() == (value is Some),
            key@ != "checked"@ ==> !changed && final(self).checked_spec() == old(self).checked_spec(),
            final(self).checked_attribute_spec() == old(self).checked_attribute_spec(),
            final(self).label_spec() == old(self).label_spec(),
            final(self).form_spec() == old(self).form_spec(),
            final(self).js_registry_spec() == old(self).js_registry_spec(),
    {
        if crate::strings::str_equals(key, "checked") {
            self.update_checked(value.is_some())
        } else {
            false
        }
    }

    /// Sets or removes the element's `disabled` attribute; a disabled checkbox takes no clicks.
    pub fn set_disabled(&mut self, disabled: bool)
        ensures
            final(self).form_spec() == (FormState { disabled_attribute: disabled, ..old(self).form_spec() }),
            final(self).checked_spec() == old(self).checked_spec(),
            final(self).checked_attribute_spec() == old(self).checked_attribute_spec(),
            final(self).label_spec() == old(self).label_spec(),
            final(self).js_registry_spec() == old(self).js_registry_spec(),
    {
        self.disabled_attribute = disabled;
    }

    pub fn is_disabled(&self) -> (res: bool)
        ensures
            res == self.form_spec().disabled_attribute,
    {
        self.form().is_disabled()
    }

    /// The checkbox's `checked` attribute: present (empty) or absent.
    pub fn get_checked_attribute(&self) -> (res: Option<String>)
        ensures
            match res {
                Some(v) => self.checked_attribute_spec() && v@ == Seq::<char>::empty(),
                None => !self.checked_attribute_spec(),
            },
    {
        if self.checked_attribute {
            Some(String::new())
        } else {
            None
        }
    }

    /// The checkbox's script events.
    pub fn js_events(&self) -> (res: &JsEventRegistry)
        ensures
            *res == self.js_registry_spec(),
    {
        &self.js_registry
    }

    /// Adds a script listener to the checkbox's element (see
    /// `JsEventRegistry::add_js_event_listener`).
    pub fn add_js_event_listener(&mut self, name: &str, factory_accepts: bool) -> (res: Result<u32, DeftError>)
        requires
            old(self).js_registry_spec().next_listener_id_spec() < u32::MAX,
        ensures
            listener_added(old(self).js_registry_spec(), final(self).js_registry_spec(), name@, factory_accepts, res),
            final(self).checked_spec() == old(self).checked_spec(),
            final(self).checked_attribute_spec() == old(self).checked_attribute_spec(),
            final(self).label_spec() == old(self).label_spec(),
            final(self).form_spec() == old(self).form_spec(),
    {
        self.js_registry.add_js_event_listener(name, factory_accepts)
    }

    /// Whether the check mark shows.
    pub fn mark_visible(&self) -> (res: bool)
        ensures
            res == self.checked_spec(),
    {
        self.checked
    }
}

} // verus!
