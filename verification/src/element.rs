use vstd::prelude::*;
use crate::base::EventContext;
use crate::strings::str_equals;
use crate::error::DeftError;

verus! {

/// The kinds of events an element dispatches; `TextInput` and `Other` have no script name here.
#[derive(Clone, Copy, Debug, PartialEq, Eq, Structural)]
pub enum EventKind {
    Click,
    ContextMenu,
    MouseDown,
    MouseMove,
    MouseUp,
    MouseEnter,
    MouseLeave,
    KeyDown,
    KeyUp,
    MouseWheel,
    TextUpdate,
    TouchStart,
    TouchMove,
    TouchEnd,
    TouchCancel,
    Focus,
    Blur,
    FocusShift,
    TextChange,
    Scroll,
    DragStart,
    DragOver,
    Drop,
    BoundsChange,
    DroppedFile,
    HoveredFile,
    TextInput,
    Other,
}

/// The event kind that a script listener names, for the names scripts may listen to.
pub open spec fn js_event_named(name: Seq<char>) -> Option<EventKind> {
    if name == seq!['c', 'l', 'i', 'c', 'k'] {
        Some(EventKind::Click)
    } else if name == seq!['c', 'o', 'n', 't', 'e', 'x', 't', 'm', 'e', 'n', 'u'] {
        Some(EventKind::ContextMenu)
    } else if name == seq!['m', 'o', 'u', 's', 'e', 'd', 'o', 'w', 'n'] {
        Some(EventKind::MouseDown)
    } else if name == seq!['m', 'o', 'u', 's', 'e', 'm', 'o', 'v', 'e'] {
        Some(EventKind::MouseMove)
    } else if name == seq!['m', 'o', 'u', 's', 'e', 'u', 'p'] {
        Some(EventKind::MouseUp)
    } else if name == seq!['m', 'o', 'u', 's', 'e', 'e', 'n', 't', 'e', 'r'] {
        Some(EventKind::MouseEnter)
    } else if name == seq!['m', 'o', 'u', 's', 'e', 'l', 'e', 'a', 'v', 'e'] {
        Some(EventKind::MouseLeave)
    } else if name == seq!['k', 'e', 'y', 'd', 'o', 'w', 'n'] {
        Some(EventKind::KeyDown)
    } else if name == seq!['k', 'e', 'y', 'u', 'p'] {
        Some(EventKind::KeyUp)
    } else if name == seq!['m', 'o', 'u', 's', 'e', 'w', 'h', 'e', 'e', 'l'] {
        Some(EventKind::MouseWheel)
    } else if name == seq!['t', 'e', 'x', 't', 'u', 'p', 'd', 'a', 't', 'e'] {
        Some(EventKind::TextUpdate)
    } else if name == seq!['t', 'o', 'u', 'c', 'h', 's', 't', 'a', 'r', 't'] {
        Some(EventKind::TouchStart)
    } else if name == seq!['t', 'o', 'u', 'c', 'h', 'm', 'o', 'v', 'e'] {
        Some(EventKind::TouchMove)
    } else if name == seq!['t', 'o', 'u', 'c', 'h', 'e', 'n', 'd'] {
        Some(EventKind::TouchEnd)
    } else if name == seq!['t', 'o', 'u', 'c', 'h', 'c', 'a', 'n', 'c', 'e', 'l'] {
        Some(EventKind::TouchCancel)
    } else if name == seq!['f', 'o', 'c', 'u', 's'] {
        Some(EventKind::Focus)
    } else if name == seq!['b', 'l', 'u', 'r'] {
        Some(EventKind::Blur)
    } else if name == seq!['f', 'o', 'c', 'u', 's', 's', 'h', 'i', 'f', 't'] {
        Some(EventKind::FocusShift)
    } else if name == seq!['t', 'e', 'x', 't', 'c', 'h', 'a', 'n', 'g', 'e'] {
        Some(EventKind::TextChange)
    } else if name == seq!['s', 'c', 'r', 'o', 'l', 'l'] {
        Some(EventKind::Scroll)
    } else if name == seq!['d', 'r', 'a', 'g', 's', 't', 'a', 'r', 't'] {
        Some(EventKind::DragStart)
    } else if name == seq!['d', 'r', 'a', 'g', 'o', 'v', 'e', 'r'] {
        Some(EventKind::DragOver)
    } else if name == seq!['d', 'r', 'o', 'p'] {
        Some(EventKind::Drop)
    } else if name == seq!['b', 'o', 'u', 'n', 'd', 's', 'c', 'h', 'a', 'n', 'g', 'e'] {
        Some(EventKind::BoundsChange)
    } else if name == seq!['d', 'r', 'o', 'p', 'p', 'e', 'd', 'f', 'i', 'l', 'e'] {
        Some(EventKind::DroppedFile)
    } else if name == seq!['h', 'o', 'v', 'e', 'r', 'e', 'd', 'f', 'i', 'l', 'e'] {
        Some(EventKind::HoveredFile)
    } else {
        None
    }
}

/// The script name of an event kind, where scripts may listen to it by name.
pub open spec fn js_event_name(kind: EventKind) -> Option<Seq<char>> {
    match kind {
        EventKind::Click => Some(seq!['c', 'l', 'i', 'c', 'k']),
        EventKind::ContextMenu => Some(seq!['c', 'o', 'n', 't', 'e', 'x', 't', 'm', 'e', 'n', 'u']),
        EventKind::MouseDown => Some(seq!['m', 'o', 'u', 's', 'e', 'd', 'o', 'w', 'n']),
        EventKind::MouseMove => Some(seq!['m', 'o', 'u', 's', 'e', 'm', 'o', 'v', 'e']),
        EventKind::MouseUp => Some(seq!['m', 'o', 'u', 's', 'e', 'u', 'p']),
        EventKind::MouseEnter => Some(seq!['m', 'o', 'u', 's', 'e', 'e', 'n', 't', 'e', 'r']),
        EventKind::MouseLeave => Some(seq!['m', 'o', 'u', 's', 'e', 'l', 'e', 'a', 'v', 'e']),
        EventKind::KeyDown => Some(seq!['k', 'e', 'y', 'd', 'o', 'w', 'n']),
        EventKind::KeyUp => Some(seq!['k', 'e', 'y', 'u', 'p']),
        EventKind::MouseWheel => Some(seq!['m', 'o', 'u', 's', 'e', 'w', 'h', 'e', 'e', 'l']),
        EventKind::TextUpdate => Some(seq!['t', 'e', 'x', 't', 'u', 'p', 'd', 'a', 't', 'e']),
        EventKind::TouchStart => Some(seq!['t', 'o', 'u', 'c', 'h', 's', 't', 'a', 'r', 't']),
        EventKind::TouchMove => Some(seq!['t', 'o', 'u', 'c', 'h', 'm', 'o', 'v', 'e']),
        EventKind::TouchEnd => Some(seq!['t', 'o', 'u', 'c', 'h', 'e', 'n', 'd']),
        EventKind::TouchCancel => Some(seq!['t', 'o', 'u', 'c', 'h', 'c', 'a', 'n', 'c', 'e', 'l']),
        EventKind::Focus => Some(seq!['f', 'o', 'c', 'u', 's']),
        EventKind::Blur => Some(seq!['b', 'l', 'u', 'r']),
        EventKind::FocusShift => Some(seq!['f', 'o', 'c', 'u', 's', 's', 'h', 'i', 'f', 't']),
        EventKind::TextChange => Some(seq!['t', 'e', 'x', 't', 'c', 'h', 'a', 'n', 'g', 'e']),
        EventKind::Scroll => Some(seq!['s', 'c', 'r', 'o', 'l', 'l']),
        EventKind::DragStart => Some(seq!['d', 'r', 'a', 'g', 's', 't', 'a', 'r', 't']),
        EventKind::DragOver => Some(seq!['d', 'r', 'a', 'g', 'o', 'v', 'e', 'r']),
        EventKind::Drop => Some(seq!['d', 'r', 'o', 'p']),
        EventKind::BoundsChange => Some(seq!['b', 'o', 'u', 'n', 'd', 's', 'c', 'h', 'a', 'n', 'g', 'e']),
        EventKind::DroppedFile => Some(seq!['d', 'r', 'o', 'p', 'p', 'e', 'd', 'f', 'i', 'l', 'e']),
        EventKind::HoveredFile => Some(seq!['h', 'o', 'v', 'e', 'r', 'e', 'd', 'f', 'i', 'l', 'e']),
        EventKind::TextInput => None,
        EventKind::Other => None,
    }
}

/// The event kind of a script listener's event name; `None` for a name scripts cannot listen to.
pub fn js_event_kind(name: &str) -> (res: Option<EventKind>)
    ensures
        res == js_event_named(name@),
{
    proof {
        reveal_strlit("click");
        reveal_strlit("contextmenu");
        reveal_strlit("mousedown");
        reveal_strlit("mousemove");
        reveal_strlit("mouseup");
        reveal_strlit("mouseenter");
        reveal_strlit("mouseleave");
        reveal_strlit("keydown");
        reveal_strlit("keyup");
        reveal_strlit("mousewheel");
        reveal_strlit("textupdate");
        reveal_strlit("touchstart");
        reveal_strlit("touchmove");
        reveal_strlit("touchend");
        reveal_strlit("touchcancel");
        reveal_strlit("focus");
        reveal_strlit("blur");
        reveal_strlit("focusshift");
        reveal_strlit("textchange");
        reveal_strlit("scroll");
        reveal_strlit("dragstart");
        reveal_strlit("dragover");
        reveal_strlit("drop");
        reveal_strlit("boundschange");
        reveal_strlit("droppedfile");
        reveal_strlit("hoveredfile");
        assert("click"@ =~= seq!['c', 'l', 'i', 'c', 'k']);
        assert("contextmenu"@ =~= seq!['c', 'o', 'n', 't', 'e', 'x', 't', 'm', 'e', 'n', 'u']);
        assert("mousedown"@ =~= seq!['m', 'o', 'u', 's', 'e', 'd', 'o', 'w', 'n']);
        assert("mousemove"@ =~= seq!['m', 'o', 'u', 's', 'e', 'm', 'o', 'v', 'e']);
        assert("mouseup"@ =~= seq!['m', 'o', 'u', 's', 'e', 'u', 'p']);
        assert("mouseenter"@ =~= seq!['m', 'o', 'u', 's', 'e', 'e', 'n', 't', 'e', 'r']);
        assert("mouseleave"@ =~= seq!['m', 'o', 'u', 's', 'e', 'l', 'e', 'a', 'v', 'e']);
        assert("keydown"@ =~= seq!['k', 'e', 'y', 'd', 'o', 'w', 'n']);
        assert("keyup"@ =~= seq!['k', 'e', 'y', 'u', 'p']);
        assert("mousewheel"@ =~= seq!['m', 'o', 'u', 's', 'e', 'w', 'h', 'e', 'e', 'l']);
        assert("textupdate"@ =~= seq!['t', 'e', 'x', 't', 'u', 'p', 'd', 'a', 't', 'e']);
        assert("touchstart"@ =~= seq!['t', 'o', 'u', 'c', 'h', 's', 't', 'a', 'r', 't']);
        assert("touchmove"@ =~= seq!['t', 'o', 'u', 'c', 'h', 'm', 'o', 'v', 'e']);
        assert("touchend"@ =~= seq!['t', 'o', 'u', 'c', 'h', 'e', 'n', 'd']);
        assert("touchcancel"@ =~= seq!['t', 'o', 'u', 'c', 'h', 'c', 'a', 'n', 'c', 'e', 'l']);
        assert("focus"@ =~= seq!['f', 'o', 'c', 'u', 's']);
        assert("blur"@ =~= seq!['b', 'l', 'u', 'r']);
        assert("focusshift"@ =~= seq!['f', 'o', 'c', 'u', 's', 's', 'h', 'i', 'f', 't']);
        assert("textchange"@ =~= seq!['t', 'e', 'x', 't', 'c', 'h', 'a', 'n', 'g', 'e']);
        assert("scroll"@ =~= seq!['s', 'c', 'r', 'o', 'l', 'l']);
        assert("dragstart"@ =~= seq!['d', 'r', 'a', 'g', 's', 't', 'a', 'r', 't']);
        assert("dragover"@ =~= seq!['d', 'r', 'a', 'g', 'o', 'v', 'e', 'r']);
        assert("drop"@ =~= seq!['d', 'r', 'o', 'p']);
        assert("boundschange"@ =~= seq!['b', 'o', 'u', 'n', 'd', 's', 'c', 'h', 'a', 'n', 'g', 'e']);
        assert("droppedfile"@ =~= seq!['d', 'r', 'o', 'p', 'p', 'e', 'd', 'f', 'i', 'l', 'e']);
        assert("hoveredfile"@ =~= seq!['h', 'o', 'v', 'e', 'r', 'e', 'd', 'f', 'i', 'l', 'e']);
    }
    if str_equals(name, "click") {
        Some(EventKind::Click)
    } else if str_equals(name, "contextmenu") {
        Some(EventKind::ContextMenu)
    } else if str_equals(name, "mousedown") {
        Some(EventKind::MouseDown)
    } else if str_equals(name, "mousemove") {
        Some(EventKind::MouseMove)
    } else if str_equals(name, "mouseup") {
        Some(EventKind::MouseUp)
    } else if str_equals(name, "mouseenter") {
        Some(EventKind::MouseEnter)
    } else if str_equals(name, "mouseleave") {
        Some(EventKind::MouseLeave)
    } else if str_equals(name, "keydown") {
        Some(EventKind::KeyDown)
    } else if str_equals(name, "keyup") {
        Some(EventKind::KeyUp)
    } else if str_equals(name, "mousewheel") {
        Some(EventKind::MouseWheel)
    } else if str_equals(name, "textupdate") {
        Some(EventKind::TextUpdate)
    } else if str_equals(name, "touchstart") {
        Some(EventKind::TouchStart)
    } else if str_equals(name, "touchmove") {
        Some(EventKind::TouchMove)
    } else if str_equals(name, "touchend") {
        Some(EventKind::TouchEnd)
    } else if str_equals(name, "touchcancel") {
        Some(EventKind::TouchCancel)
    } else if str_equals(name, "focus") {
        Some(EventKind::Focus)
    } else if str_equals(name, "blur") {
        Some(EventKind::Blur)
    } else if str_equals(name, "focusshift") {
        Some(EventKind::FocusShift)
    } else if str_equals(name, "textchange") {
        Some(EventKind::TextChange)
    } else if str_equals(name, "scroll") {
        Some(EventKind::Scroll)
    } else if str_equals(name, "dragstart") {
        Some(EventKind::DragStart)
    } else if str_equals(name, "dragover") {
        Some(EventKind::DragOver)
    } else if str_equals(name, "drop") {
        Some(EventKind::Drop)
    } else if str_equals(name, "boundschange") {
        Some(EventKind::BoundsChange)
    } else if str_equals(name, "droppedfile") {
        Some(EventKind::DroppedFile)
    } else if str_equals(name, "hoveredfile") {
        Some(EventKind::HoveredFile)
    } else {
        None
    }
}

/// Whether an event is form input, which a disabled form element does not take: clicks, mouse
/// buttons, text input and keys.
pub open spec fn form_event(kind: EventKind) -> bool {
    kind == EventKind::Click || kind == EventKind::MouseDown || kind == EventKind::MouseUp
        || kind == EventKind::TextInput || kind == EventKind::KeyDown || kind == EventKind::KeyUp
}

pub fn is_form_event(kind: EventKind) -> (res: bool)
    ensures
        res == form_event(kind),
{
    match kind {
        EventKind::Click | EventKind::MouseDown | EventKind::MouseUp | EventKind::TextInput
        | EventKind::KeyDown | EventKind::KeyUp => true,
        _ => false,
    }
}

/// What an element decides about the form input it takes: whether it is a form element, whether
/// it carries the `disabled` attribute, and whether it was made focusable.
pub struct FormState {
    pub is_form_element: bool,
    pub disabled_attribute: bool,
    pub focusable: bool,
}

impl FormState {
    /// A form element is disabled while it carries the `disabled` attribute; no other element is.
    pub fn is_disabled(&self) -> (res: bool)
        ensures
            res == (self.is_form_element && self.disabled_attribute),
    {
        self.is_form_element && self.disabled_attribute
    }

    /// Sets or removes the `disabled` attribute of a form element; other elements stay as they are.
    pub fn set_disabled(&mut self, disabled: bool)
        ensures
            old(self).is_form_element ==> *final(self) == (FormState { disabled_attribute: disabled, ..*old(self) }),
            !old(self).is_form_element ==> *final(self) == *old(self),
    {
        if self.is_form_element {
            self.disabled_attribute = disabled;
        }
    }

    /// Whether the element takes the focus: never while it is a disabled form element.
    pub fn is_focusable(&self) -> (res: bool)
        ensures
            res == (self.focusable && !(self.is_form_element && self.disabled_attribute)),
    {
        if self.is_disabled() {
            false
        } else {
            self.focusable
        }
    }

    /// Stops an event that a disabled form element does not take: its propagation is cancelled
    /// and its default behaviour prevented. Returns whether it was stopped.
    pub fn block_event<T>(&self, kind: EventKind, ctx: &mut EventContext<T>) -> (blocked: bool)
        ensures
            blocked == (self.is_form_element && form_event(kind) && self.disabled_attribute),
            blocked ==> final(ctx).id_spec() == old(ctx).id_spec()
                && final(ctx).state_spec() == (old(ctx).state_spec().0, true, true),
            !blocked ==> *final(ctx) == *old(ctx),
    {
        if self.is_form_element && is_form_event(kind) && self.is_disabled() {
            ctx.stop();
            true
        } else {
            false
        }
    }
}

/// Hands out element ids: 1, 2, 3, ...
pub struct ElementIdSource {
    next: u32,
}

impl ElementIdSource {
    pub closed spec fn next_spec(&self) -> u32 {
        self.next
    }

    pub fn new() -> (res: ElementIdSource)
        ensures
            res.next_spec() == 1,
    {
        ElementIdSource { next: 1 }
    }

    /// The next id; each id is handed out once, in increasing order.
    pub fn next_id(&mut self) -> (id: u32)
        requires
            old(self).next_spec() < u32::MAX,
        ensures
            id == old(self).next_spec(),
            final(self).next_spec() == old(self).next_spec() + 1,
    {
        let id = self.next;
        self.next = id + 1;
        id
    }
}

/// Whether `a` is reached from `child` by going up at most `steps` parents.
pub open spec fn ancestor_within(parents: Seq<Option<usize>>, a: usize, child: usize, steps: nat) -> bool
    decreases steps,
{
    if steps == 0 || child >= parents.len() {
        false
    } else {
        match parents[child as int] {
            Some(p) => p == a || ancestor_within(parents, a, p, (steps - 1) as nat),
            None => false,
        }
    }
}

/// Whether element `a` is an ancestor of element `child` in a tree where `parents[e]` is the
/// parent of element `e`: the parents of `child` are followed up, at most as many steps as there
/// are elements (every chain of a tree is that short).
pub fn is_parent_of(parents: &Vec<Option<usize>>, a: usize, child: usize) -> (res: bool)
    ensures
        res == ancestor_within(parents@, a, child, parents@.len()),
{
    let n = parents.len();
    let mut steps: usize = n;
    let mut c = child;
    while steps > 0
        invariant
            n == parents@.len(),
            steps <= n,
            ancestor_within(parents@, a, child, n as nat) == ancestor_within(parents@, a, c, steps as nat),
        decreases steps,
    {
        if c >= n {
            return false;
        }
        match parents[c] {
            Some(p) => {
                if p == a {
                    return true;
                }
                c = p;
            },
            None => {
                return false;
            },
        }
        steps = steps - 1;
    }
    false
}

/// Whether scripts may listen to the event named `name` on an element that registered the
/// custom event names `custom`: a built-in name, or a registered one.
pub open spec fn js_event_accepted(custom: Seq<Seq<char>>, name: Seq<char>) -> bool {
    js_event_named(name) is Some || custom.contains(name)
}

/// What adding a script listener for `name` does to an element's script events (see
/// `JsEventRegistry::add_js_event_listener`): it succeeds exactly for a built-in name, or for a
/// registered one whose factory accepted the listener, and then hands out the next id; otherwise
/// it refuses with `unknown event_type:<name>` and changes nothing.
pub open spec fn listener_added(
    old_reg: JsEventRegistry,
    new_reg: JsEventRegistry,
    name: Seq<char>,
    factory_accepts: bool,
    res: Result<u32, DeftError>,
) -> bool {
    &&& new_reg.names_spec() == old_reg.names_spec()
    &&& (res is Ok) == (js_event_named(name) is Some || (old_reg.names_spec().contains(name) && factory_accepts))
    &&& match res {
        Ok(id) => id == old_reg.next_listener_id_spec()
            && new_reg.next_listener_id_spec() == old_reg.next_listener_id_spec() + 1,
        Err(e) => new_reg.next_listener_id_spec() == old_reg.next_listener_id_spec()
            && (e matches DeftError::Internal(m) && m@ == "unknown event_type:"@ + name),
    }
}

/// The script events of an element: the custom event names it registered (besides the built-in
/// ones), and the id of the next listener it takes.
pub struct JsEventRegistry {
    names: Vec<String>,
    next_listener_id: u32,
}

impl JsEventRegistry {
    pub closed spec fn names_spec(&self) -> Seq<Seq<char>> {
        self.names@.map_values(|n: String| n@)
    }

    pub closed spec fn next_listener_id_spec(&self) -> u32 {
        self.next_listener_id
    }

    /// No custom events; listener ids start at 1.
    pub fn new() -> (res: JsEventRegistry)
        ensures
            res.names_spec() == Seq::<Seq<char>>::empty(),
            res.next_listener_id_spec() == 1,
    {
        let res = JsEventRegistry { names: Vec::new(), next_listener_id: 1 };
        assert(res.names_spec() =~= Seq::<Seq<char>>::empty());
        res
    }

    /// Whether `name` is a registered custom event name.
    pub fn is_registered(&self, name: &str) -> (res: bool)
        ensures
            res == self.names_spec().contains(name@),
    {
        let mut i: usize = 0;
        while i < self.names.len()
            invariant
                i <= self.names@.len(),
                forall|j: int| 0 <= j < i ==> self.names@[j]@ != name@,
            decreases self.names@.len() - i,
        {
            if str_equals(self.names[i].as_str(), name) {
                proof {
                    assert(self.names_spec()[i as int] == name@);
                }
                return true;
            }
            i = i + 1;
        }
        proof {
            if self.names_spec().contains(name@) {
                let j = choose|j: int| 0 <= j < self.names_spec().len() && self.names_spec()[j] == name@;
                assert(self.names@[j]@ == name@);
            }
        }
        false
    }

    /// Registers the custom event name `name`; registering a name again changes nothing.
    pub fn register_js_event(&mut self, name: &str)
        ensures
            final(self).names_spec() == (if old(self).names_spec().contains(name@) {
                old(self).names_spec()
            } else {
                old(self).names_spec().push(name@)
            }),
            final(self).next_listener_id_spec() == old(self).next_listener_id_spec(),
    {
        if !self.is_registered(name) {
            let ghost before = self.names@;
            self.names.push(name.to_owned());
            proof {
                assert(self.names@.map_values(|n: String| n@) =~= before.map_values(|n: String| n@).push(name@));
            }
        }
    }

    /// The registered custom event names, in the order of registration.
    pub fn names(&self) -> (res: Vec<String>)
        ensures
            res@.map_values(|n: String| n@) == self.names_spec(),
    {
        let mut res: Vec<String> = Vec::new();
        let mut i: usize = 0;
        while i < self.names.len()
            invariant
                i <= self.names@.len(),
                res@.map_values(|n: String| n@) == self.names@.take(i as int).map_values(|n: String| n@),
            decreases self.names@.len() - i,
        {
            res.push(self.names[i].clone());
            proof {
                assert(self.names@.take(i + 1).map_values(|n: String| n@)
                    =~= self.names@.take(i as int).map_values(|n: String| n@).push(self.names@[i as int]@));
                assert(res@.map_values(|n: String| n@) =~= self.names@.take(i + 1).map_values(|n: String| n@));
            }
            i = i + 1;
        }
        proof {
            assert(self.names@.take(i as int) =~= self.names@);
        }
        res
    }

    /// Adds a script listener for the event named `name`. A built-in name takes it at once; a
    /// registered custom name takes it where the event's listener factory accepted the script
    /// value (`factory_accepts`, the result of calling it). The listener gets the next id; any
    /// other name is refused with the message `unknown event_type:<name>`.
    pub fn add_js_event_listener(&mut self, name: &str, factory_accepts: bool) -> (res: Result<u32, DeftError>)
        requires
            old(self).next_listener_id_spec() < u32::MAX,
        ensures
            listener_added(*old(self), *final(self), name@, factory_accepts, res),
    {
        let accepted = match js_event_kind(name) {
            Some(_) => true,
            None => factory_accepts && self.is_registered(name),
        };
        if accepted {
            let id = self.next_listener_id;
            self.next_listener_id = id + 1;
            Ok(id)
        } else {
            let mut message = "unknown event_type:".to_owned();
            message.append(name);
            Err(DeftError::Internal(message))
        }
    }
}


/// The built-in names, letter by letter.
proof fn lemma_js_names_spelled()
    ensures
        seq!['c', 'l', 'i', 'c', 'k'].len() == 5 && seq!['c', 'l', 'i', 'c', 'k'][0] == 'c' && seq!['c', 'l', 'i', 'c', 'k'][1] == 'l' && seq!['c', 'l', 'i', 'c', 'k'][2] == 'i' && seq!['c', 'l', 'i', 'c', 'k'][3] == 'c' && seq!['c', 'l', 'i', 'c', 'k'][4] == 'k',
        seq!['c', 'o', 'n', 't', 'e', 'x', 't', 'm', 'e', 'n', 'u'].len() == 11 && seq!['c', 'o', 'n', 't', 'e', 'x', 't', 'm', 'e', 'n', 'u'][0] == 'c' && seq!['c', 'o', 'n', 't', 'e', 'x', 't', 'm', 'e', 'n', 'u'][1] == 'o' && seq!['c', 'o', 'n', 't', 'e', 'x', 't', 'm', 'e', 'n', 'u'][2] == 'n' && seq!['c', 'o', 'n', 't', 'e', 'x', 't', 'm', 'e', 'n', 'u'][3] == 't' && seq!['c', 'o', 'n', 't', 'e', 'x', 't', 'm', 'e', 'n', 'u'][4] == 'e' && seq!['c', 'o', 'n', 't', 'e', 'x', 't', 'm', 'e', 'n', 'u'][5] == 'x' && seq!['c', 'o', 'n', 't', 'e', 'x', 't', 'm', 'e', 'n', 'u'][6] == 't' && seq!['c', 'o', 'n', 't', 'e', 'x', 't', 'm', 'e', 'n', 'u'][7] == 'm' && seq!['c', 'o', 'n', 't', 'e', 'x', 't', 'm', 'e', 'n', 'u'][8] == 'e' && seq!['c', 'o', 'n', 't', 'e', 'x', 't', 'm', 'e', 'n', 'u'][9] == 'n' && seq!['c', 'o', 'n', 't', 'e', 'x', 't', 'm', 'e', 'n', 'u'][10] == 'u',
        seq!['m', 'o', 'u', 's', 'e', 'd', 'o', 'w', 'n'].len() == 9 && seq!['m', 'o', 'u', 's', 'e', 'd', 'o', 'w', 'n'][0] == 'm' && seq!['m', 'o', 'u', 's', 'e', 'd', 'o', 'w', 'n'][1] == 'o' && seq!['m', 'o', 'u', 's', 'e', 'd', 'o', 'w', 'n'][2] == 'u' && seq!['m', 'o', 'u', 's', 'e', 'd', 'o', 'w', 'n'][3] == 's' && seq!['m', 'o', 'u', 's', 'e', 'd', 'o', 'w', 'n'][4] == 'e' && seq!['m', 'o', 'u', 's', 'e', 'd', 'o', 'w', 'n'][5] == 'd' && seq!['m', 'o', 'u', 's', 'e', 'd', 'o', 'w', 'n'][6] == 'o' && seq!['m', 'o', 'u', 's', 'e', 'd', 'o', 'w', 'n'][7] == 'w' && seq!['m', 'o', 'u', 's', 'e', 'd', 'o', 'w', 'n'][8] == 'n',
        seq!['m', 'o', 'u', 's', 'e', 'm', 'o', 'v', 'e'].len() == 9 && seq!['m', 'o', 'u', 's', 'e', 'm', 'o', 'v', 'e'][0] == 'm' && seq!['m', 'o', 'u', 's', 'e', 'm', 'o', 'v', 'e'][1] == 'o' && seq!['m', 'o', 'u', 's', 'e', 'm', 'o', 'v', 'e'][2] == 'u' && seq!['m', 'o', 'u', 's', 'e', 'm', 'o', 'v', 'e'][3] == 's' && seq!['m', 'o', 'u', 's', 'e', 'm', 'o', 'v', 'e'][4] == 'e' && seq!['m', 'o', 'u', 's', 'e', 'm', 'o', 'v', 'e'][5] == 'm' && seq!['m', 'o', 'u', 's', 'e', 'm', 'o', 'v', 'e'][6] == 'o' && seq!['m', 'o', 'u', 's', 'e', 'm', 'o', 'v', 'e'][7] == 'v' && seq!['m', 'o', 'u', 's', 'e', 'm', 'o', 'v', 'e'][8] == 'e',
        seq!['m', 'o', 'u', 's', 'e', 'u', 'p'].len() == 7 && seq!['m', 'o', 'u', 's', 'e', 'u', 'p'][0] == 'm' && seq!['m', 'o', 'u', 's', 'e', 'u', 'p'][1] == 'o' && seq!['m', 'o', 'u', 's', 'e', 'u', 'p'][2] == 'u' && seq!['m', 'o', 'u', 's', 'e', 'u', 'p'][3] == 's' && seq!['m', 'o', 'u', 's', 'e', 'u', 'p'][4] == 'e' && seq!['m', 'o', 'u', 's', 'e', 'u', 'p'][5] == 'u' && seq!['m', 'o', 'u', 's', 'e', 'u', 'p'][6] == 'p',
        seq!['m', 'o', 'u', 's', 'e', 'e', 'n', 't', 'e', 'r'].len() == 10 && seq!['m', 'o', 'u', 's', 'e', 'e', 'n', 't', 'e', 'r'][0] == 'm' && seq!['m', 'o', 'u', 's', 'e', 'e', 'n', 't', 'e', 'r'][1] == 'o' && seq!['m', 'o', 'u', 's', 'e', 'e', 'n', 't', 'e', 'r'][2] == 'u' && seq!['m', 'o', 'u', 's', 'e', 'e', 'n', 't', 'e', 'r'][3] == 's' && seq!['m', 'o', 'u', 's', 'e', 'e', 'n', 't', 'e', 'r'][4] == 'e' && seq!['m', 'o', 'u', 's', 'e', 'e', 'n', 't', 'e', 'r'][5] == 'e' && seq!['m', 'o', 'u', 's', 'e', 'e', 'n', 't', 'e', 'r'][6] == 'n' && seq!['m', 'o', 'u', 's', 'e', 'e', 'n', 't', 'e', 'r'][7] == 't' && seq!['m', 'o', 'u', 's', 'e', 'e', 'n', 't', 'e', 'r'][8] == 'e' && seq!['m', 'o', 'u', 's', 'e', 'e', 'n', 't', 'e', 'r'][9] == 'r',
        seq!['m', 'o', 'u', 's', 'e', 'l', 'e', 'a', 'v', 'e'].len() == 10 && seq!['m', 'o', 'u', 's', 'e', 'l', 'e', 'a', 'v', 'e'][0] == 'm' && seq!['m', 'o', 'u', 's', 'e', 'l', 'e', 'a', 'v', 'e'][1] == 'o' && seq!['m', 'o', 'u', 's', 'e', 'l', 'e', 'a', 'v', 'e'][2] == 'u' && seq!['m', 'o', 'u', 's', 'e', 'l', 'e', 'a', 'v', 'e'][3] == 's' && seq!['m', 'o', 'u', 's', 'e', 'l', 'e', 'a', 'v', 'e'][4] == 'e' && seq!['m', 'o', 'u', 's', 'e', 'l', 'e', 'a', 'v', 'e'][5] == 'l' && seq!['m', 'o', 'u', 's', 'e', 'l', 'e', 'a', 'v', 'e'][6] == 'e' && seq!['m', 'o', 'u', 's', 'e', 'l', 'e', 'a', 'v', 'e'][7] == 'a' && seq!['m', 'o', 'u', 's', 'e', 'l', 'e', 'a', 'v', 'e'][8] == 'v' && seq!['m', 'o', 'u', 's', 'e', 'l', 'e', 'a', 'v', 'e'][9] == 'e',
        seq!['k', 'e', 'y', 'd', 'o', 'w', 'n'].len() == 7 && seq!['k', 'e', 'y', 'd', 'o', 'w', 'n'][0] == 'k' && seq!['k', 'e', 'y', 'd', 'o', 'w', 'n'][1] == 'e' && seq!['k', 'e', 'y', 'd', 'o', 'w', 'n'][2] == 'y' && seq!['k', 'e', 'y', 'd', 'o', 'w', 'n'][3] == 'd' && seq!['k', 'e', 'y', 'd', 'o', 'w', 'n'][4] == 'o' && seq!['k', 'e', 'y', 'd', 'o', 'w', 'n'][5] == 'w' && seq!['k', 'e', 'y', 'd', 'o', 'w', 'n'][6] == 'n',
        seq!['k', 'e', 'y', 'u', 'p'].len() == 5 && seq!['k', 'e', 'y', 'u', 'p'][0] == 'k' && seq!['k', 'e', 'y', 'u', 'p'][1] == 'e' && seq!['k', 'e', 'y', 'u', 'p'][2] == 'y' && seq!['k', 'e', 'y', 'u', 'p'][3] == 'u' && seq!['k', 'e', 'y', 'u', 'p'][4] == 'p',
        seq!['m', 'o', 'u', 's', 'e', 'w', 'h', 'e', 'e', 'l'].len() == 10 && seq!['m', 'o', 'u', 's', 'e', 'w', 'h', 'e', 'e', 'l'][0] == 'm' && seq!['m', 'o', 'u', 's', 'e', 'w', 'h', 'e', 'e', 'l'][1] == 'o' && seq!['m', 'o', 'u', 's', 'e', 'w', 'h', 'e', 'e', 'l'][2] == 'u' && seq!['m', 'o', 'u', 's', 'e', 'w', 'h', 'e', 'e', 'l'][3] == 's' && seq!['m', 'o', 'u', 's', 'e', 'w', 'h', 'e', 'e', 'l'][4] == 'e' && seq!['m', 'o', 'u', 's', 'e', 'w', 'h', 'e', 'e', 'l'][5] == 'w' && seq!['m', 'o', 'u', 's', 'e', 'w', 'h', 'e', 'e', 'l'][6] == 'h' && seq!['m', 'o', 'u', 's', 'e', 'w', 'h', 'e', 'e', 'l'][7] == 'e' && seq!['m', 'o', 'u', 's', 'e', 'w', 'h', 'e', 'e', 'l'][8] == 'e' && seq!['m', 'o', 'u', 's', 'e', 'w', 'h', 'e', 'e', 'l'][9] == 'l',
        seq!['t', 'e', 'x', 't', 'u', 'p', 'd', 'a', 't', 'e'].len() == 10 && seq!['t', 'e', 'x', 't', 'u', 'p', 'd', 'a', 't', 'e'][0] == 't' && seq!['t', 'e', 'x', 't', 'u', 'p', 'd', 'a', 't', 'e'][1] == 'e' && seq!['t', 'e', 'x', 't', 'u', 'p', 'd', 'a', 't', 'e'][2] == 'x' && seq!['t', 'e', 'x', 't', 'u', 'p', 'd', 'a', 't', 'e'][3] == 't' && seq!['t', 'e', 'x', 't', 'u', 'p', 'd', 'a', 't', 'e'][4] == 'u' && seq!['t', 'e', 'x', 't', 'u', 'p', 'd', 'a', 't', 'e'][5] == 'p' && seq!['t', 'e', 'x', 't', 'u', 'p', 'd', 'a', 't', 'e'][6] == 'd' && seq!['t', 'e', 'x', 't', 'u', 'p', 'd', 'a', 't', 'e'][7] == 'a' && seq!['t', 'e', 'x', 't', 'u', 'p', 'd', 'a', 't', 'e'][8] == 't' && seq!['t', 'e', 'x', 't', 'u', 'p', 'd', 'a', 't', 'e'][9] == 'e',
        seq!['t', 'o', 'u', 'c', 'h', 's', 't', 'a', 'r', 't'].len() == 10 && seq!['t', 'o', 'u', 'c', 'h', 's', 't', 'a', 'r', 't'][0] == 't' && seq!['t', 'o', 'u', 'c', 'h', 's', 't', 'a', 'r', 't'][1] == 'o' && seq!['t', 'o', 'u', 'c', 'h', 's', 't', 'a', 'r', 't'][2] == 'u' && seq!['t', 'o', 'u', 'c', 'h', 's', 't', 'a', 'r', 't'][3] == 'c' && seq!['t', 'o', 'u', 'c', 'h', 's', 't', 'a', 'r', 't'][4] == 'h' && seq!['t', 'o', 'u', 'c', 'h', 's', 't', 'a', 'r', 't'][5] == 's' && seq!['t', 'o', 'u', 'c', 'h', 's', 't', 'a', 'r', 't'][6] == 't' && seq!['t', 'o', 'u', 'c', 'h', 's', 't', 'a', 'r', 't'][7] == 'a' && seq!['t', 'o', 'u', 'c', 'h', 's', 't', 'a', 'r', 't'][8] == 'r' && seq!['t', 'o', 'u', 'c', 'h', 's', 't', 'a', 'r', 't'][9] == 't',
        seq!['t', 'o', 'u', 'c', 'h', 'm', 'o', 'v', 'e'].len() == 9 && seq!['t', 'o', 'u', 'c', 'h', 'm', 'o', 'v', 'e'][0] == 't' && seq!['t', 'o', 'u', 'c', 'h', 'm', 'o', 'v', 'e'][1] == 'o' && seq!['t', 'o', 'u', 'c', 'h', 'm', 'o', 'v', 'e'][2] == 'u' && seq!['t', 'o', 'u', 'c', 'h', 'm', 'o', 'v', 'e'][3] == 'c' && seq!['t', 'o', 'u', 'c', 'h', 'm', 'o', 'v', 'e'][4] == 'h' && seq!['t', 'o', 'u', 'c', 'h', 'm', 'o', 'v', 'e'][5] == 'm' && seq!['t', 'o', 'u', 'c', 'h', 'm', 'o', 'v', 'e'][6] == 'o' && seq!['t', 'o', 'u', 'c', 'h', 'm', 'o', 'v', 'e'][7] == 'v' && seq!['t', 'o', 'u', 'c', 'h', 'm', 'o', 'v', 'e'][8] == 'e',
        seq!['t', 'o', 'u', 'c', 'h', 'e', 'n', 'd'].len() == 8 && seq!['t', 'o', 'u', 'c', 'h', 'e', 'n', 'd'][0] == 't' && seq!['t', 'o', 'u', 'c', 'h', 'e', 'n', 'd'][1] == 'o' && seq!['t', 'o', 'u', 'c', 'h', 'e', 'n', 'd'][2] == 'u' && seq!['t', 'o', 'u', 'c', 'h', 'e', 'n', 'd'][3] == 'c' && seq!['t', 'o', 'u', 'c', 'h', 'e', 'n', 'd'][4] == 'h' && seq!['t', 'o', 'u', 'c', 'h', 'e', 'n', 'd'][5] == 'e' && seq!['t', 'o', 'u', 'c', 'h', 'e', 'n', 'd'][6] == 'n' && seq!['t', 'o', 'u', 'c', 'h', 'e', 'n', 'd'][7] == 'd',
        seq!['t', 'o', 'u', 'c', 'h', 'c', 'a', 'n', 'c', 'e', 'l'].len() == 11 && seq!['t', 'o', 'u', 'c', 'h', 'c', 'a', 'n', 'c', 'e', 'l'][0] == 't' && seq!['t', 'o', 'u', 'c', 'h', 'c', 'a', 'n', 'c', 'e', 'l'][1] == 'o' && seq!['t', 'o', 'u', 'c', 'h', 'c', 'a', 'n', 'c', 'e', 'l'][2] == 'u' && seq!['t', 'o', 'u', 'c', 'h', 'c', 'a', 'n', 'c', 'e', 'l'][3] == 'c' && seq!['t', 'o', 'u', 'c', 'h', 'c', 'a', 'n', 'c', 'e', 'l'][4] == 'h' && seq!['t', 'o', 'u', 'c', 'h', 'c', 'a', 'n', 'c', 'e', 'l'][5] == 'c' && seq!['t', 'o', 'u', 'c', 'h', 'c', 'a', 'n', 'c', 'e', 'l'][6] == 'a' && seq!['t', 'o', 'u', 'c', 'h', 'c', 'a', 'n', 'c', 'e', 'l'][7] == 'n' && seq!['t', 'o', 'u', 'c', 'h', 'c', 'a', 'n', 'c', 'e', 'l'][8] == 'c' && seq!['t', 'o', 'u', 'c', 'h', 'c', 'a', 'n', 'c', 'e', 'l'][9] == 'e' && seq!['t', 'o', 'u', 'c', 'h', 'c', 'a', 'n', 'c', 'e', 'l'][10] == 'l',
        seq!['f', 'o', 'c', 'u', 's'].len() == 5 && seq!['f', 'o', 'c', 'u', 's'][0] == 'f' && seq!['f', 'o', 'c', 'u', 's'][1] == 'o' && seq!['f', 'o', 'c', 'u', 's'][2] == 'c' && seq!['f', 'o', 'c', 'u', 's'][3] == 'u' && seq!['f', 'o', 'c', 'u', 's'][4] == 's',
        seq!['b', 'l', 'u', 'r'].len() == 4 && seq!['b', 'l', 'u', 'r'][0] == 'b' && seq!['b', 'l', 'u', 'r'][1] == 'l' && seq!['b', 'l', 'u', 'r'][2] == 'u' && seq!['b', 'l', 'u', 'r'][3] == 'r',
        seq!['f', 'o', 'c', 'u', 's', 's', 'h', 'i', 'f', 't'].len() == 10 && seq!['f', 'o', 'c', 'u', 's', 's', 'h', 'i', 'f', 't'][0] == 'f' && seq!['f', 'o', 'c', 'u', 's', 's', 'h', 'i', 'f', 't'][1] == 'o' && seq!['f', 'o', 'c', 'u', 's', 's', 'h', 'i', 'f', 't'][2] == 'c' && seq!['f', 'o', 'c', 'u', 's', 's', 'h', 'i', 'f', 't'][3] == 'u' && seq!['f', 'o', 'c', 'u', 's', 's', 'h', 'i', 'f', 't'][4] == 's' && seq!['f', 'o', 'c', 'u', 's', 's', 'h', 'i', 'f', 't'][5] == 's' && seq!['f', 'o', 'c', 'u', 's', 's', 'h', 'i', 'f', 't'][6] == 'h' && seq!['f', 'o', 'c', 'u', 's', 's', 'h', 'i', 'f', 't'][7] == 'i' && seq!['f', 'o', 'c', 'u', 's', 's', 'h', 'i', 'f', 't'][8] == 'f' && seq!['f', 'o', 'c', 'u', 's', 's', 'h', 'i', 'f', 't'][9] == 't',
        seq!['t', 'e', 'x', 't', 'c', 'h', 'a', 'n', 'g', 'e'].len() == 10 && seq!['t', 'e', 'x', 't', 'c', 'h', 'a', 'n', 'g', 'e'][0] == 't' && seq!['t', 'e', 'x', 't', 'c', 'h', 'a', 'n', 'g', 'e'][1] == 'e' && seq!['t', 'e', 'x', 't', 'c', 'h', 'a', 'n', 'g', 'e'][2] == 'x' && seq!['t', 'e', 'x', 't', 'c', 'h', 'a', 'n', 'g', 'e'][3] == 't' && seq!['t', 'e', 'x', 't', 'c', 'h', 'a', 'n', 'g', 'e'][4] == 'c' && seq!['t', 'e', 'x', 't', 'c', 'h', 'a', 'n', 'g', 'e'][5] == 'h' && seq!['t', 'e', 'x', 't', 'c', 'h', 'a', 'n', 'g', 'e'][6] == 'a' && seq!['t', 'e', 'x', 't', 'c', 'h', 'a', 'n', 'g', 'e'][7] == 'n' && seq!['t', 'e', 'x', 't', 'c', 'h', 'a', 'n', 'g', 'e'][8] == 'g' && seq!['t', 'e', 'x', 't', 'c', 'h', 'a', 'n', 'g', 'e'][9] == 'e',
        seq!['s', 'c', 'r', 'o', 'l', 'l'].len() == 6 && seq!['s', 'c', 'r', 'o', 'l', 'l'][0] == 's' && seq!['s', 'c', 'r', 'o', 'l', 'l'][1] == 'c' && seq!['s', 'c', 'r', 'o', 'l', 'l'][2] == 'r' && seq!['s', 'c', 'r', 'o', 'l', 'l'][3] == 'o' && seq!['s', 'c', 'r', 'o', 'l', 'l'][4] == 'l' && seq!['s', 'c', 'r', 'o', 'l', 'l'][5] == 'l',
        seq!['d', 'r', 'a', 'g', 's', 't', 'a', 'r', 't'].len() == 9 && seq!['d', 'r', 'a', 'g', 's', 't', 'a', 'r', 't'][0] == 'd' && seq!['d', 'r', 'a', 'g', 's', 't', 'a', 'r', 't'][1] == 'r' && seq!['d', 'r', 'a', 'g', 's', 't', 'a', 'r', 't'][2] == 'a' && seq!['d', 'r', 'a', 'g', 's', 't', 'a', 'r', 't'][3] == 'g' && seq!['d', 'r', 'a', 'g', 's', 't', 'a', 'r', 't'][4] == 's' && seq!['d', 'r', 'a', 'g', 's', 't', 'a', 'r', 't'][5] == 't' && seq!['d', 'r', 'a', 'g', 's', 't', 'a', 'r', 't'][6] == 'a' && seq!['d', 'r', 'a', 'g', 's', 't', 'a', 'r', 't'][7] == 'r' && seq!['d', 'r', 'a', 'g', 's', 't', 'a', 'r', 't'][8] == 't',
        seq!['d', 'r', 'a', 'g', 'o', 'v', 'e', 'r'].len() == 8 && seq!['d', 'r', 'a', 'g', 'o', 'v', 'e', 'r'][0] == 'd' && seq!['d', 'r', 'a', 'g', 'o', 'v', 'e', 'r'][1] == 'r' && seq!['d', 'r', 'a', 'g', 'o', 'v', 'e', 'r'][2] == 'a' && seq!['d', 'r', 'a', 'g', 'o', 'v', 'e', 'r'][3] == 'g' && seq!['d', 'r', 'a', 'g', 'o', 'v', 'e', 'r'][4] == 'o' && seq!['d', 'r', 'a', 'g', 'o', 'v', 'e', 'r'][5] == 'v' && seq!['d', 'r', 'a', 'g', 'o', 'v', 'e', 'r'][6] == 'e' && seq!['d', 'r', 'a', 'g', 'o', 'v', 'e', 'r'][7] == 'r',
        seq!['d', 'r', 'o', 'p'].len() == 4 && seq!['d', 'r', 'o', 'p'][0] == 'd' && seq!['d', 'r', 'o', 'p'][1] == 'r' && seq!['d', 'r', 'o', 'p'][2] == 'o' && seq!['d', 'r', 'o', 'p'][3] == 'p',
        seq!['b', 'o', 'u', 'n', 'd', 's', 'c', 'h', 'a', 'n', 'g', 'e'].len() == 12 && seq!['b', 'o', 'u', 'n', 'd', 's', 'c', 'h', 'a', 'n', 'g', 'e'][0] == 'b' && seq!['b', 'o', 'u', 'n', 'd', 's', 'c', 'h', 'a', 'n', 'g', 'e'][1] == 'o' && seq!['b', 'o', 'u', 'n', 'd', 's', 'c', 'h', 'a', 'n', 'g', 'e'][2] == 'u' && seq!['b', 'o', 'u', 'n', 'd', 's', 'c', 'h', 'a', 'n', 'g', 'e'][3] == 'n' && seq!['b', 'o', 'u', 'n', 'd', 's', 'c', 'h', 'a', 'n', 'g', 'e'][4] == 'd' && seq!['b', 'o', 'u', 'n', 'd', 's', 'c', 'h', 'a', 'n', 'g', 'e'][5] == 's' && seq!['b', 'o', 'u', 'n', 'd', 's', 'c', 'h', 'a', 'n', 'g', 'e'][6] == 'c' && seq!['b', 'o', 'u', 'n', 'd', 's', 'c', 'h', 'a', 'n', 'g', 'e'][7] == 'h' && seq!['b', 'o', 'u', 'n', 'd', 's', 'c', 'h', 'a', 'n', 'g', 'e'][8] == 'a' && seq!['b', 'o', 'u', 'n', 'd', 's', 'c', 'h', 'a', 'n', 'g', 'e'][9] == 'n' && seq!['b', 'o', 'u', 'n', 'd', 's', 'c', 'h', 'a', 'n', 'g', 'e'][10] == 'g' && seq!['b', 'o', 'u', 'n', 'd', 's', 'c', 'h', 'a', 'n', 'g', 'e'][11] == 'e',
        seq!['d', 'r', 'o', 'p', 'p', 'e', 'd', 'f', 'i', 'l', 'e'].len() == 11 && seq!['d', 'r', 'o', 'p', 'p', 'e', 'd', 'f', 'i', 'l', 'e'][0] == 'd' && seq!['d', 'r', 'o', 'p', 'p', 'e', 'd', 'f', 'i', 'l', 'e'][1] == 'r' && seq!['d', 'r', 'o', 'p', 'p', 'e', 'd', 'f', 'i', 'l', 'e'][2] == 'o' && seq!['d', 'r', 'o', 'p', 'p', 'e', 'd', 'f', 'i', 'l', 'e'][3] == 'p' && seq!['d', 'r', 'o', 'p', 'p', 'e', 'd', 'f', 'i', 'l', 'e'][4] == 'p' && seq!['d', 'r', 'o', 'p', 'p', 'e', 'd', 'f', 'i', 'l', 'e'][5] == 'e' && seq!['d', 'r', 'o', 'p', 'p', 'e', 'd', 'f', 'i', 'l', 'e'][6] == 'd' && seq!['d', 'r', 'o', 'p', 'p', 'e', 'd', 'f', 'i', 'l', 'e'][7] == 'f' && seq!['d', 'r', 'o', 'p', 'p', 'e', 'd', 'f', 'i', 'l', 'e'][8] == 'i' && seq!['d', 'r', 'o', 'p', 'p', 'e', 'd', 'f', 'i', 'l', 'e'][9] == 'l' && seq!['d', 'r', 'o', 'p', 'p', 'e', 'd', 'f', 'i', 'l', 'e'][10] == 'e',
        seq!['h', 'o', 'v', 'e', 'r', 'e', 'd', 'f', 'i', 'l', 'e'].len() == 11 && seq!['h', 'o', 'v', 'e', 'r', 'e', 'd', 'f', 'i', 'l', 'e'][0] == 'h' && seq!['h', 'o', 'v', 'e', 'r', 'e', 'd', 'f', 'i', 'l', 'e'][1] == 'o' && seq!['h', 'o', 'v', 'e', 'r', 'e', 'd', 'f', 'i', 'l', 'e'][2] == 'v' && seq!['h', 'o', 'v', 'e', 'r', 'e', 'd', 'f', 'i', 'l', 'e'][3] == 'e' && seq!['h', 'o', 'v', 'e', 'r', 'e', 'd', 'f', 'i', 'l', 'e'][4] == 'r' && seq!['h', 'o', 'v', 'e', 'r', 'e', 'd', 'f', 'i', 'l', 'e'][5] == 'e' && seq!['h', 'o', 'v', 'e', 'r', 'e', 'd', 'f', 'i', 'l', 'e'][6] == 'd' && seq!['h', 'o', 'v', 'e', 'r', 'e', 'd', 'f', 'i', 'l', 'e'][7] == 'f' && seq!['h', 'o', 'v', 'e', 'r', 'e', 'd', 'f', 'i', 'l', 'e'][8] == 'i' && seq!['h', 'o', 'v', 'e', 'r', 'e', 'd', 'f', 'i', 'l', 'e'][9] == 'l' && seq!['h', 'o', 'v', 'e', 'r', 'e', 'd', 'f', 'i', 'l', 'e'][10] == 'e',
{
}

/// Every event kind that scripts may listen to by name is found again from its name, and two
/// kinds never share a name: `js_event_kind` gives back the kind whose name it is given, so a
/// listener for any built-in name is accepted.
pub proof fn law_js_event_names_round_trip(kind: EventKind)
    ensures
        kind != EventKind::TextInput && kind != EventKind::Other ==> js_event_name(kind) is Some,
        js_event_name(kind) matches Some(n) ==> js_event_named(n) == Some(kind),
{
    match kind {
        EventKind::Click => {
            lemma_js_names_spelled();
            assert(js_event_named(seq!['c', 'l', 'i', 'c', 'k']) == Some(EventKind::Click));
        },
        EventKind::ContextMenu => {
            lemma_js_names_spelled();
            assert(js_event_named(seq!['c', 'o', 'n', 't', 'e', 'x', 't', 'm', 'e', 'n', 'u']) == Some(EventKind::ContextMenu));
        },
        EventKind::MouseDown => {
            lemma_js_names_spelled();
            assert(js_event_named(seq!['m', 'o', 'u', 's', 'e', 'd', 'o', 'w', 'n']) == Some(EventKind::MouseDown));
        },
        EventKind::MouseMove => {
            lemma_js_names_spelled();
            assert(js_event_named(seq!['m', 'o', 'u', 's', 'e', 'm', 'o', 'v', 'e']) == Some(EventKind::MouseMove));
        },
        EventKind::MouseUp => {
            lemma_js_names_spelled();
            assert(js_event_named(seq!['m', 'o', 'u', 's', 'e', 'u', 'p']) == Some(EventKind::MouseUp));
        },
        EventKind::MouseEnter => {
            lemma_js_names_spelled();
            assert(js_event_named(seq!['m', 'o', 'u', 's', 'e', 'e', 'n', 't', 'e', 'r']) == Some(EventKind::MouseEnter));
        },
        EventKind::MouseLeave => {
            lemma_js_names_spelled();
            assert(js_event_named(seq!['m', 'o', 'u', 's', 'e', 'l', 'e', 'a', 'v', 'e']) == Some(EventKind::MouseLeave));
        },
        EventKind::KeyDown => {
            lemma_js_names_spelled();
            assert(js_event_named(seq!['k', 'e', 'y', 'd', 'o', 'w', 'n']) == Some(EventKind::KeyDown));
        },
        EventKind::KeyUp => {
            lemma_js_names_spelled();
            assert(js_event_named(seq!['k', 'e', 'y', 'u', 'p']) == Some(EventKind::KeyUp));
        },
        EventKind::MouseWheel => {
            lemma_js_names_spelled();
            assert(js_event_named(seq!['m', 'o', 'u', 's', 'e', 'w', 'h', 'e', 'e', 'l']) == Some(EventKind::MouseWheel));
        },
        EventKind::TextUpdate => {
            lemma_js_names_spelled();
            assert(js_event_named(seq!['t', 'e', 'x', 't', 'u', 'p', 'd', 'a', 't', 'e']) == Some(EventKind::TextUpdate));
        },
        EventKind::TouchStart => {
            lemma_js_names_spelled();
            assert(js_event_named(seq!['t', 'o', 'u', 'c', 'h', 's', 't', 'a', 'r', 't']) == Some(EventKind::TouchStart));
        },
        EventKind::TouchMove => {
            lemma_js_names_spelled();
            assert(js_event_named(seq!['t', 'o', 'u', 'c', 'h', 'm', 'o', 'v', 'e']) == Some(EventKind::TouchMove));
        },
        EventKind::TouchEnd => {
            lemma_js_names_spelled();
            assert(js_event_named(seq!['t', 'o', 'u', 'c', 'h', 'e', 'n', 'd']) == Some(EventKind::TouchEnd));
        },
        EventKind::TouchCancel => {
            lemma_js_names_spelled();
            assert(js_event_named(seq!['t', 'o', 'u', 'c', 'h', 'c', 'a', 'n', 'c', 'e', 'l']) == Some(EventKind::TouchCancel));
        },
        EventKind::Focus => {
            lemma_js_names_spelled();
            assert(js_event_named(seq!['f', 'o', 'c', 'u', 's']) == Some(EventKind::Focus));
        },
        EventKind::Blur => {
            lemma_js_names_spelled();
            assert(js_event_named(seq!['b', 'l', 'u', 'r']) == Some(EventKind::Blur));
        },
        EventKind::FocusShift => {
            lemma_js_names_spelled();
            assert(js_event_named(seq!['f', 'o', 'c', 'u', 's', 's', 'h', 'i', 'f', 't']) == Some(EventKind::FocusShift));
        },
        EventKind::TextChange => {
            lemma_js_names_spelled();
            assert(js_event_named(seq!['t', 'e', 'x', 't', 'c', 'h', 'a', 'n', 'g', 'e']) == Some(EventKind::TextChange));
        },
        EventKind::Scroll => {
            lemma_js_names_spelled();
            assert(js_event_named(seq!['s', 'c', 'r', 'o', 'l', 'l']) == Some(EventKind::Scroll));
        },
        EventKind::DragStart => {
            lemma_js_names_spelled();
            assert(js_event_named(seq!['d', 'r', 'a', 'g', 's', 't', 'a', 'r', 't']) == Some(EventKind::DragStart));
        },
        EventKind::DragOver => {
            lemma_js_names_spelled();
            assert(js_event_named(seq!['d', 'r', 'a', 'g', 'o', 'v', 'e', 'r']) == Some(EventKind::DragOver));
        },
        EventKind::Drop => {
            lemma_js_names_spelled();
            assert(js_event_named(seq!['d', 'r', 'o', 'p']) == Some(EventKind::Drop));
        },
        EventKind::BoundsChange => {
            lemma_js_names_spelled();
            assert(js_event_named(seq!['b', 'o', 'u', 'n', 'd', 's', 'c', 'h', 'a', 'n', 'g', 'e']) == Some(EventKind::BoundsChange));
        },
        EventKind::DroppedFile => {
            lemma_js_names_spelled();
            assert(js_event_named(seq!['d', 'r', 'o', 'p', 'p', 'e', 'd', 'f', 'i', 'l', 'e']) == Some(EventKind::DroppedFile));
        },
        EventKind::HoveredFile => {
            lemma_js_names_spelled();
            assert(js_event_named(seq!['h', 'o', 'v', 'e', 'r', 'e', 'd', 'f', 'i', 'l', 'e']) == Some(EventKind::HoveredFile));
        },
        _ => {},
    }
}

/// A listener for a built-in event name is always taken, with the next listener id, whatever
/// custom names are registered and whatever the factory would say.
pub proof fn law_builtin_listener_accepted(
    old_reg: JsEventRegistry,
    new_reg: JsEventRegistry,
    kind: EventKind,
    factory_accepts: bool,
    res: Result<u32, DeftError>,
)
    requires
        js_event_name(kind) is Some,
        listener_added(old_reg, new_reg, js_event_name(kind)->0, factory_accepts, res),
    ensures
        res == Ok::<u32, DeftError>(old_reg.next_listener_id_spec()),
        new_reg.next_listener_id_spec() == old_reg.next_listener_id_spec() + 1,
{
    law_js_event_names_round_trip(kind);
}

} // verus!
