use vstd::prelude::*;
use crate::label::Label;
use crate::element::{JsEventRegistry, listener_added};
use crate::error::DeftError;

verus! {

/// An option of a select: the value it stands for and the label it shows.
pub struct SelectOption {
    pub value: String,
    pub label: String,
}

/// The event that a select emits when its value changes.
pub struct ChangeEvent {}

pub open spec fn options_view(options: Seq<SelectOption>) -> Seq<(Seq<char>, Seq<char>)> {
    options.map_values(|o: SelectOption| (o.value@, o.label@))
}

/// The label that shows `value`: that of the first option with this value, else the value.
pub open spec fn label_for(options: Seq<(Seq<char>, Seq<char>)>, value: Seq<char>) -> Seq<char>
    decreases options.len(),
{
    if options.len() == 0 {
        value
    } else if options[0].0 == value {
        options[0].1
    } else {
        label_for(options.drop_first(), value)
    }
}

/// A select: its value, its options and the label that shows the value.
pub struct Select {
    value: String,
    options: Vec<SelectOption>,
    label: Label,
    placeholder: String,
    js_registry: JsEventRegistry,
}

impl Select {
    pub closed spec fn value_spec(&self) -> Seq<char> {
        self.value@
    }

    pub closed spec fn options_spec(&self) -> Seq<(Seq<char>, Seq<char>)> {
        options_view(self.options@)
    }

    pub closed spec fn label_spec(&self) -> Seq<char> {
        self.label.text_spec()
    }

    pub closed spec fn placeholder_spec(&self) -> Seq<char> {
        self.placeholder@
    }

    pub closed spec fn js_registry_spec(&self) -> JsEventRegistry {
        self.js_registry
    }

    /// Sets the text that shows while no value is chosen.
    pub fn set_placeholder(&mut self, value: String)
        ensures
            final(self).placeholder_spec() == value@,
            final(self).value_spec() == old(self).value_spec(),
            final(self).options_spec() == old(self).options_spec(),
            final(self).label_spec() == old(self).label_spec(),
            final(self).js_registry_spec() == old(self).js_registry_spec(),
    {
        self.placeholder = value;
    }

    pub fn get_placeholder(&self) -> (res: String)
        ensures
            res@ == self.placeholder_spec(),
    {
        self.placeholder.clone()
    }

    /// The select's script events: it registers `change`.
    pub fn js_events(&self) -> (res: &JsEventRegistry)
        ensures
            *res == self.js_registry_spec(),
    {
        &self.js_registry
    }

    /// Adds a script listener to the select's element (see
    /// `JsEventRegistry::add_js_event_listener`).
    pub fn add_js_event_listener(&mut self, name: &str, factory_accepts: bool) -> (res: Result<u32, DeftError>)
        requires
            old(self).js_registry_spec().next_listener_id_spec() < u32::MAX,
        ensures
            listener_added(old(self).js_registry_spec(), final(self).js_registry_spec(), name@, factory_accepts, res),
            final(self).value_spec() == old(self).value_spec(),
            final(self).options_spec() == old(self).options_spec(),
            final(self).label_spec() == old(self).label_spec(),
            final(self).placeholder_spec() == old(self).placeholder_spec(),
    {
        self.js_registry.add_js_event_listener(name, factory_accepts)
    }

    pub fn create() -> (res: Select)
        ensures
            res.value_spec() == Seq::<char>::empty(),
            res.options_spec() == Seq::<(Seq<char>, Seq<char>)>::empty(),
            res.label_spec() == Seq::<char>::empty(),
            res.placeholder_spec() == Seq::<char>::empty(),
            res.js_registry_spec().names_spec() == seq![seq!['c', 'h', 'a', 'n', 'g', 'e']],
            res.js_registry_spec().next_listener_id_spec() == 1,
    {
        let mut js_registry = JsEventRegistry::new();
        js_registry.register_js_event("change");
        proof {
            reveal_strlit("change");
            assert("change"@ =~= seq!['c', 'h', 'a', 'n', 'g', 'e']);
        }
        let res = Select { value: String::new(), options: Vec::new(), label: Label::new(), placeholder: String::new(), js_registry };
        assert(res.options_spec() =~= Seq::<(Seq<char>, Seq<char>)>::empty());
        res
    }

    /// The label of the first option with `value`, or `value` itself.
    fn find_label(&self, value: &String) -> (res: String)
        ensures
            res@ == label_for(self.options_spec(), value@),
    {
        let mut i: usize = 0;
        assert(self.options_spec().skip(0) =~= self.options_spec());
        while i < self.options.len()
            invariant
                i <= self.options@.len(),
                label_for(self.options_spec(), value@) == label_for(self.options_spec().skip(i as int), value@),
            decreases self.options@.len() - i,
        {
            let ghost rest = self.options_spec().skip(i as int);
            proof {
                assert(rest.drop_first() =~= self.options_spec().skip(i + 1));
            }
            if self.options[i].value == *value {
                return self.options[i].label.clone();
            }
            i = i + 1;
        }
        value.clone()
    }

    /// Sets the value where it differs, showing its option's label; returns whether it changed,
    /// in which case a change event is due.
    pub fn set_value(&mut self, value: String) -> (changed: bool)
        ensures
            changed == (value@ != old(self).value_spec()),
            final(self).value_spec() == value@,
            final(self).options_spec() == old(self).options_spec(),
            changed ==> final(self).label_spec() == label_for(old(self).options_spec(), value@),
            !changed ==> final(self).label_spec() == old(self).label_spec(),
            final(self).placeholder_spec() == old(self).placeholder_spec(),
            final(self).js_registry_spec() == old(self).js_registry_spec(),
    {
        if self.value != value {
            let label = self.find_label(&value);
            self.label.set_text(label);
            self.value = value;
            true
        } else {
            false
        }
    }

    pub fn get_value(&self) -> (res: String)
        ensures
            res@ == self.value_spec(),
    {
        self.value.clone()
    }

    pub fn set_options(&mut self, options: Vec<SelectOption>)
        ensures
            final(self).options_spec() == options_view(options@),
            final(self).value_spec() == old(self).value_spec(),
            final(self).label_spec() == old(self).label_spec(),
            final(self).placeholder_spec() == old(self).placeholder_spec(),
            final(self).js_registry_spec() == old(self).js_registry_spec(),
    {
        self.options = options;
    }

    pub fn get_options(&self) -> (res: Vec<SelectOption>)
        ensures
            options_view(res@) == self.options_spec(),
    {
        let mut res: Vec<SelectOption> = Vec::new();
        let mut i: usize = 0;
        while i < self.options.len()
            invariant
                i <= self.options@.len(),
                options_view(res@) == options_view(self.options@.take(i as int)),
            decreases self.options@.len() - i,
        {
            res.push(SelectOption { value: self.options[i].value.clone(), label: self.options[i].label.clone() });
            proof {
                assert(options_view(self.options@.take(i + 1)) =~= options_view(self.options@.take(i as int)).push(
                    (self.options@[i as int].value@, self.options@[i as int].label@)));
                assert(options_view(res@) =~= options_view(self.options@.take(i + 1)));
            }
            i = i + 1;
        }
        assert(self.options@.take(i as int) =~= self.options@);
        res
    }

    /// The text that the select shows.
    pub fn get_label(&self) -> (res: String)
        ensures
            res@ == self.label_spec(),
    {
        self.label.get_text()
    }
}

} // verus!
