use vstd::prelude::*;
use crate::label::Label;
use crate::element::{JsEventRegistry, listener_added};
use crate::error::DeftError;

verus! {

/// The event that a radio, or a radio group, emits when its checked state changes.
pub struct ChangeEvent {}

/// Whether the children of a descendant were attached or removed.
#[derive(Clone, Copy, Debug, PartialEq, Eq, Structural)]
pub enum DescendantsChangeType {
    Attached,
    Removed,
}

/// A radio button with a label.
pub struct Radio {
    label: Label,
    checked: bool,
    checked_attribute: bool,
}

impl Radio {
    pub closed spec fn checked_spec(&self) -> bool {
        self.checked
    }

    pub closed spec fn label_spec(&self) -> Seq<char> {
        self.label.text_spec()
    }

    /// Whether the radio's element carries the `checked` attribute.
    pub closed spec fn checked_attribute_spec(&self) -> bool {
        self.checked_attribute
    }

    pub fn create() -> (res: Radio)
        ensures
            !res.checked_spec(),
            !res.checked_attribute_spec(),
            res.label_spec() == Seq::<char>::empty(),
    {
        Radio { label: Label::new(), checked: false, checked_attribute: false }
    }

    pub fn set_label(&mut self, label: String)
        ensures
            final(self).label_spec() == label@,
            final(self).checked_spec() == old(self).checked_spec(),
            final(self).checked_attribute_spec() == old(self).checked_attribute_spec(),
    {
        self.label.set_text(label);
    }

    pub fn get_label(&self) -> (res: String)
        ensures
            res@ == self.label_spec(),
    {
        self.label.get_text()
    }

    pub fn is_checked(&self) -> (res: bool)
        ensures
            res == self.checked_spec(),
    {
        self.checked
    }

    /// The radio's `checked` attribute: present (empty) or absent.
    pub fn get_checked_attribute(&self) -> (res: Option<String>)
        ensures
            match res {
                Some(v) => self.checked_attribute_spec() && v@ == Seq::<char>::empty(),
                None => !self.checked_attribute_spec(),
            },
    {
        if self.checked_attribute {
            Some(String::new())
        } else {
            None
        }
    }

    /// Checks or unchecks a radio outside any group: sets or removes its `checked` attribute,
    /// which the checked state follows. Returns whether the state changed, in which case a
    /// change event is due.
    pub fn set_checked(&mut self, checked: bool) -> (changed: bool)
        ensures
            changed == (checked != old(self).checked_spec()),
            final(self).checked_spec() == checked,
            final(self).checked_attribute_spec() == checked,
            final(self).label_spec() == old(self).label_spec(),
    {
        self.checked_attribute = checked;
        self.update_self_checked(checked)
    }

    /// Sets the checked state alone, as a group does to its other radios.
    fn update_self_checked(&mut self, checked: bool) -> (changed: bool)
        ensures
            changed == (checked != old(self).checked_spec()),
            final(self).checked_spec() == checked,
            final(self).checked_attribute_spec() == old(self).checked_attribute_spec(),
            final(self).label_spec() == old(self).label_spec(),
    {
        if self.checked != checked {
            self.checked = checked;
            true
        } else {
            false
        }
    }
}

/// The checked states of a group's radios.
pub open spec fn checked_states(list: Seq<Radio>) -> Seq<bool> {
    list.map_values(|r: Radio| r.checked_spec())
}

/// At most one radio of the group is checked.
pub open spec fn at_most_one_checked(states: Seq<bool>) -> bool {
    forall|i: int, j: int| 0 <= i < states.len() && 0 <= j < states.len() && states[i] && states[j] ==> i == j
}

/// A group of radios of which at most one is checked.
pub struct RadioGroup {
    radio_list: Vec<Radio>,
    js_registry: JsEventRegistry,
}

impl RadioGroup {
    pub closed spec fn states(&self) -> Seq<bool> {
        checked_states(self.radio_list@)
    }

    pub closed spec fn labels(&self) -> Seq<Seq<char>> {
        self.radio_list@.map_values(|r: Radio| r.label_spec())
    }

    /// Whether each radio's element carries the `checked` attribute.
    pub closed spec fn attributes(&self) -> Seq<bool> {
        self.radio_list@.map_values(|r: Radio| r.checked_attribute_spec())
    }

    pub closed spec fn js_registry_spec(&self) -> JsEventRegistry {
        self.js_registry
    }

    /// The group's script events: it registers `change`.
    pub fn js_events(&self) -> (res: &JsEventRegistry)
        ensures
            *res == self.js_registry_spec(),
    {
        &self.js_registry
    }

    /// Adds a script listener to the group's element (see `JsEventRegistry::add_js_event_listener`).
    pub fn add_js_event_listener(&mut self, name: &str, factory_accepts: bool) -> (res: Result<u32, DeftError>)
        requires
            old(self).js_registry_spec().next_listener_id_spec() < u32::MAX,
        ensures
            listener_added(old(self).js_registry_spec(), final(self).js_registry_spec(), name@, factory_accepts, res),
            final(self).states() == old(self).states(),
            final(self).labels() == old(self).labels(),
            final(self).attributes() == old(self).attributes(),
    {
        self.js_registry.add_js_event_listener(name, factory_accepts)
    }

    pub fn create() -> (res: RadioGroup)
        ensures
            res.states() == Seq::<bool>::empty(),
            res.labels() == Seq::<Seq<char>>::empty(),
            res.attributes() == Seq::<bool>::empty(),
            at_most_one_checked(res.states()),
            res.js_registry_spec().names_spec() == seq![seq!['c', 'h', 'a', 'n', 'g', 'e']],
            res.js_registry_spec().next_listener_id_spec() == 1,
    {
        let mut js_registry = JsEventRegistry::new();
        js_registry.register_js_event("change");
        let res = RadioGroup { radio_list: Vec::new(), js_registry };
        proof {
            reveal_strlit("change");
            assert("change"@ =~= seq!['c', 'h', 'a', 'n', 'g', 'e']);
        }
        assert(res.states() =~= Seq::<bool>::empty());
        assert(res.labels() =~= Seq::<Seq<char>>::empty());
        assert(res.attributes() =~= Seq::<bool>::empty());
        res
    }

    pub fn len(&self) -> (res: usize)
        ensures
            res == self.states().len(),
    {
        self.radio_list.len()
    }

    /// Takes `radio` into the group; it is unchecked where the group already has a checked radio.
    pub fn attach(&mut self, radio: Radio)
        requires
            at_most_one_checked(old(self).states()),
        ensures
            at_most_one_checked(final(self).states()),
            final(self).states() == old(self).states().push(
                radio.checked_spec() && !old(self).states().contains(true)),
            final(self).labels() == old(self).labels().push(radio.label_spec()),
            final(self).attributes() == old(self).attributes().push(radio.checked_attribute_spec()),
            final(self).js_registry_spec() == old(self).js_registry_spec(),
    {
        let mut radio = radio;
        let mut has_checked = false;
        let mut i: usize = 0;
        while i < self.radio_list.len()
            invariant
                i <= self.radio_list@.len(),
                self.radio_list@ == old(self).radio_list@,
                has_checked == checked_states(self.radio_list@).take(i as int).contains(true),
            decreases self.radio_list@.len() - i,
        {
            proof {
                let st = checked_states(self.radio_list@);
                let t0 = st.take(i as int);
                let t1 = st.take(i + 1);
                assert(t1 =~= t0.push(st[i as int]));
                if st[i as int] {
                    assert(t1[i as int] == true);
                }
                if t0.contains(true) {
                    let q = choose|q: int| 0 <= q < t0.len() && t0[q] == true;
                    assert(t1[q] == true);
                }
                if t1.contains(true) {
                    let q = choose|q: int| 0 <= q < t1.len() && t1[q] == true;
                    if q < i {
                        assert(t0[q] == true);
                    }
                }
            }
            if self.radio_list[i].checked {
                has_checked = true;
            }
            i = i + 1;
        }
        proof {
            assert(checked_states(self.radio_list@).take(i as int) =~= checked_states(self.radio_list@));
        }
        if has_checked {
            radio.update_self_checked(false);
        }
        let ghost old_list = self.radio_list@;
        self.radio_list.push(radio);
        proof {
            assert(checked_states(self.radio_list@) =~= checked_states(old_list).push(radio.checked_spec()));
            assert(self.radio_list@.map_values(|r: Radio| r.label_spec()) =~= old_list.map_values(|r: Radio| r.label_spec()).push(radio.label_spec()));
            assert(self.radio_list@.map_values(|r: Radio| r.checked_attribute_spec())
                =~= old_list.map_values(|r: Radio| r.checked_attribute_spec()).push(radio.checked_attribute_spec()));
            let st = checked_states(self.radio_list@);
            assert forall|a: int, b: int| 0 <= a < st.len() && 0 <= b < st.len() && st[a] && st[b] implies a == b by {
                if a == old_list.len() && b < old_list.len() {
                    assert(checked_states(old_list)[b]);
                    assert(checked_states(old_list).contains(true));
                }
                if b == old_list.len() && a < old_list.len() {
                    assert(checked_states(old_list)[a]);
                    assert(checked_states(old_list).contains(true));
                }
            }
        }
    }

    /// Takes radio `index` out of the group.
    pub fn remove(&mut self, index: usize) -> (res: Radio)
        requires
            index < old(self).states().len(),
            at_most_one_checked(old(self).states()),
        ensures
            at_most_one_checked(final(self).states()),
            final(self).states() == old(self).states().remove(index as int),
            final(self).labels() == old(self).labels().remove(index as int),
            final(self).attributes() == old(self).attributes().remove(index as int),
            final(self).js_registry_spec() == old(self).js_registry_spec(),
            res.checked_spec() == old(self).states()[index as int],
            res.checked_attribute_spec() == old(self).attributes()[index as int],
    {
        let ghost old_list = self.radio_list@;
        let r = self.radio_list.remove(index);
        proof {
            assert(checked_states(self.radio_list@) =~= checked_states(old_list).remove(index as int));
            assert(self.radio_list@.map_values(|r: Radio| r.label_spec()) =~= old_list.map_values(|r: Radio| r.label_spec()).remove(index as int));
            assert(self.radio_list@.map_values(|r: Radio| r.checked_attribute_spec())
                =~= old_list.map_values(|r: Radio| r.checked_attribute_spec()).remove(index as int));
            let st = checked_states(self.radio_list@);
            let os = checked_states(old_list);
            assert forall|a: int, b: int| 0 <= a < st.len() && 0 <= b < st.len() && st[a] && st[b] implies a == b by {
                let a1 = if a < index { a } else { a + 1 };
                let b1 = if b < index { b } else { b + 1 };
                assert(st[a] == os[a1]);
                assert(st[b] == os[b1]);
            }
        }
        r
    }

    pub fn is_checked(&self, index: usize) -> (res: bool)
        requires
            index < self.states().len(),
        ensures
            res == self.states()[index as int],
    {
        self.radio_list[index].checked
    }

    /// Whether radio `index`'s element carries the `checked` attribute.
    pub fn has_checked_attribute(&self, index: usize) -> (res: bool)
        requires
            index < self.states().len(),
        ensures
            res == self.attributes()[index as int],
    {
        self.radio_list[index].checked_attribute
    }

    /// Checks or unchecks radio `index`: sets or removes its `checked` attribute, and its state
    /// follows; checking it unchecks every other radio of the group, whose attributes stay.
    /// Returns whether its state changed, in which case a change event is due.
    pub fn set_checked(&mut self, index: usize, checked: bool) -> (changed: bool)
        requires
            index < old(self).states().len(),
            at_most_one_checked(old(self).states()),
        ensures
            at_most_one_checked(final(self).states()),
            changed == (old(self).states()[index as int] != checked),
            final(self).labels() == old(self).labels(),
            final(self).attributes() == old(self).attributes().update(index as int, checked),
            final(self).js_registry_spec() == old(self).js_registry_spec(),
            !changed ==> final(self).states() == old(self).states(),
            changed && checked ==> final(self).states() == Seq::new(old(self).states().len(), |j: int| j == index),
            changed && !checked ==> final(self).states() == old(self).states().update(index as int, false),
    {
        let ghost orig = self.radio_list@;
        let mut first = self.radio_list.remove(index);
        first.checked_attribute = checked;
        self.radio_list.insert(index, first);
        proof {
            assert(checked_states(self.radio_list@) =~= checked_states(orig));
            assert(self.radio_list@.map_values(|r: Radio| r.label_spec()) =~= orig.map_values(|r: Radio| r.label_spec()));
            assert(self.radio_list@.map_values(|r: Radio| r.checked_attribute_spec())
                =~= orig.map_values(|r: Radio| r.checked_attribute_spec()).update(index as int, checked));
        }
        if self.radio_list[index].checked == checked {
            return false;
        }
        let ghost old_list = self.radio_list@;
        if checked {
            let mut j: usize = 0;
            while j < self.radio_list.len()
                invariant
                    j <= self.radio_list@.len(),
                    self.radio_list@.len() == old_list.len(),
                    index < old_list.len(),
                    forall|q: int| 0 <= q < j ==> #[trigger] self.radio_list@[q].checked_spec() == (q == index),
                    forall|q: int| j <= q < self.radio_list@.len() ==> #[trigger] self.radio_list@[q] == old_list[q],
                    forall|q: int| 0 <= q < self.radio_list@.len() ==> #[trigger] self.radio_list@[q].label_spec() == old_list[q].label_spec(),
                    forall|q: int| 0 <= q < self.radio_list@.len() ==> #[trigger] self.radio_list@[q].checked_attribute_spec() == old_list[q].checked_attribute_spec(),
                    self.js_registry == old(self).js_registry,
                decreases self.radio_list@.len() - j,
            {
                let mut r = self.radio_list.remove(j);
                r.update_self_checked(j == index);
                self.radio_list.insert(j, r);
                j = j + 1;
            }
            proof {
                assert(checked_states(self.radio_list@) =~= Seq::new(old_list.len(), |q: int| q == index));
                assert(self.radio_list@.map_values(|r: Radio| r.label_spec()) =~= old_list.map_values(|r: Radio| r.label_spec()));
                assert(self.radio_list@.map_values(|r: Radio| r.checked_attribute_spec()) =~= old_list.map_values(|r: Radio| r.checked_attribute_spec()));
            }
        } else {
            let mut r = self.radio_list.remove(index);
            r.update_self_checked(false);
            self.radio_list.insert(index, r);
            proof {
                assert(checked_states(self.radio_list@) =~= checked_states(old_list).update(index as int, false));
                assert(self.radio_list@.map_values(|r: Radio| r.label_spec()) =~= old_list.map_values(|r: Radio| r.label_spec()));
                assert(self.radio_list@.map_values(|r: Radio| r.checked_attribute_spec()) =~= old_list.map_values(|r: Radio| r.checked_attribute_spec()));
                let st = checked_states(self.radio_list@);
                let os = checked_states(old_list);
                assert forall|a: int, b: int| 0 <= a < st.len() && 0 <= b < st.len() && st[a] && st[b] implies a == b by {
                    assert(os[a] && os[b]);
                }
            }
        }
        true
    }
}

} // verus!
