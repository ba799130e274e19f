use vstd::prelude::*;
use std::marker::PhantomData;

verus! {

/// The source of fresh ids: the next id to hand out.
pub struct IdKey {
    next_id: usize,
}

impl IdKey {
    pub closed spec fn next_value(&self) -> nat {
        self.next_id as nat
    }

    pub fn new() -> (res: Self)
        ensures
            res.next_value() == 1,
    {
        IdKey { next_id: 1 }
    }
}

/// An id of things of type `T`.
pub struct Id<T> {
    id: usize,
    _phantom: PhantomData<T>,
}

impl<T> Clone for Id<T> {
    fn clone(&self) -> (res: Self)
        ensures
            res.value_spec() == self.value_spec(),
    {
        Id { id: self.id, _phantom: PhantomData }
    }
}

impl<T> Id<T> {
    pub closed spec fn value_spec(&self) -> nat {
        self.id as nat
    }

    /// Hands out the next id of `key`.
    pub fn next(key: &mut IdKey) -> (res: Self)
        requires
            old(key).next_value() < usize::MAX,
        ensures
            res.value_spec() == old(key).next_value(),
            final(key).next_value() == old(key).next_value() + 1,
    {
        let id = key.next_id;
        key.next_id = id + 1;
        Id { id, _phantom: PhantomData }
    }

    /// The number of the id.
    pub fn value(&self) -> (res: usize)
        ensures
            res == self.value_spec(),
    {
        self.id
    }
}

/// A flag that is set by `mark` and taken back by `unmark`.
pub struct StateMarker {
    state: bool,
}

impl StateMarker {
    pub closed spec fn is_marked(&self) -> bool {
        self.state
    }

    pub fn new() -> (res: Self)
        ensures
            !res.is_marked(),
    {
        Self { state: false }
    }

    pub fn mark(&mut self)
        ensures
            final(self).is_marked(),
    {
        self.state = true
    }

    /// Clears the flag and tells whether it was set.
    pub fn unmark(&mut self) -> (res: bool)
        ensures
            res == old(self).is_marked(),
            !final(self).is_marked(),
    {
        if self.state {
            self.state = false;
            true
        } else {
            false
        }
    }
}

/// A callback that runs once.
pub struct Callback<F> {
    callback: F,
}

impl<F: FnOnce()> Callback<F> {
    pub closed spec fn function(&self) -> F {
        self.callback
    }

    pub fn new(callback: F) -> (res: Self)
        ensures
            res.function() == callback,
    {
        Self { callback }
    }

    /// Runs the callback.
    pub fn call(self)
        requires
            call_requires(self.function(), ()),
        ensures
            call_ensures(self.function(), (), ()),
    {
        (self.callback)()
    }
}

#[derive(Clone, Copy, Debug, PartialEq, Eq, Structural)]
pub enum MouseEventType {
    MouseDown,
    MouseUp,
    MouseClick,
    ContextMenu,
    MouseMove,
    MouseEnter,
    MouseLeave,
}

pub struct FocusShiftDetail {
    pub element: u32,
}

pub struct TextChangeDetail {
    pub value: String,
}

pub struct TextUpdateDetail {
    pub value: String,
}

/// The context of one dispatch of an event: its id, its target, and whether propagation was
/// cancelled or the default behaviour prevented.
pub struct EventContext<T> {
    id: u64,
    pub target: T,
    pub propagation_cancelled: bool,
    pub prevent_default: bool,
}

impl<T> EventContext<T> {
    pub closed spec fn id_spec(&self) -> u64 {
        self.id
    }

    /// The target, and whether propagation was cancelled and the default prevented.
    pub closed spec fn state_spec(&self) -> (T, bool, bool) {
        (self.target, self.propagation_cancelled, self.prevent_default)
    }

    /// A fresh context for `target`, numbered from the counter `next_event_id`.
    pub fn new(target: T, next_event_id: &mut u64) -> (res: Self)
        requires
            *old(next_event_id) < u64::MAX,
        ensures
            res.id_spec() == *old(next_event_id),
            *final(next_event_id) == *old(next_event_id) + 1,
            res.state_spec() == (target, false, false),
    {
        let id = *next_event_id;
        *next_event_id = id + 1;
        Self { id, target, propagation_cancelled: false, prevent_default: false }
    }

    /// Cancels the event's propagation and prevents its default behaviour.
    pub fn stop(&mut self)
        ensures
            final(self).id_spec() == old(self).id_spec(),
            final(self).state_spec() == (old(self).state_spec().0, true, true),
    {
        self.propagation_cancelled = true;
        self.prevent_default = true;
    }

    pub fn get_id(&self) -> (res: u64)
        ensures
            res == self.id_spec(),
    {
        self.id
    }
}

} // verus!
