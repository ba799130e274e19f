use vstd::prelude::*;
use crate::strings::{to_lowercase, str_equals, lowercase};

verus! {

/// When a scroll bar shows.
#[derive(Clone, Copy, Debug, PartialEq, Eq, Structural)]
pub enum ScrollBarStrategy {
    Never,
    Auto,
    Always,
}

#[derive(Clone, Copy, Debug, PartialEq, Eq, Structural)]
pub enum ScrollBarDirection {
    Horizontal,
    Vertical,
}

/// The strategy named by a lowercase name.
pub open spec fn strategy_named(name: Seq<char>) -> Option<ScrollBarStrategy> {
    if name == seq!['n', 'e', 'v', 'e', 'r'] {
        Some(ScrollBarStrategy::Never)
    } else if name == seq!['a', 'u', 't', 'o'] {
        Some(ScrollBarStrategy::Auto)
    } else if name == seq!['a', 'l', 'w', 'a', 'y', 's'] {
        Some(ScrollBarStrategy::Always)
    } else {
        None
    }
}

impl ScrollBarStrategy {
    /// The strategy named by `s` in any case: `never`, `auto` or `always`.
    pub fn from_str(s: &str) -> (res: Option<ScrollBarStrategy>)
        ensures
            res == strategy_named(lowercase(s@)),
                {
        let lower = to_lowercase(s);
        Self::from_lowercase(lower.as_str())
    }

    /// The strategy named by the lowercase name `name`.
    pub fn from_lowercase(name: &str) -> (res: Option<ScrollBarStrategy>)
        ensures
            res == strategy_named(name@),
    {
        proof {
            reveal_strlit("never");
            reveal_strlit("auto");
            reveal_strlit("always");
            assert("never"@ =~= seq!['n', 'e', 'v', 'e', 'r']);
            assert("auto"@ =~= seq!['a', 'u', 't', 'o']);
            assert("always"@ =~= seq!['a', 'l', 'w', 'a', 'y', 's']);
        }
        if str_equals(name, "never") {
            Some(ScrollBarStrategy::Never)
        } else if str_equals(name, "auto") {
            Some(ScrollBarStrategy::Auto)
        } else if str_equals(name, "always") {
            Some(ScrollBarStrategy::Always)
        } else {
            None
        }
    }
}

/// A scroll container: whether its height follows its content.
pub struct Scroll {
    auto_height: bool,
}

impl Scroll {
    pub closed spec fn auto_height_spec(&self) -> bool {
        self.auto_height
    }

    pub fn new() -> (res: Scroll)
        ensures
            !res.auto_height_spec(),
    {
        Scroll { auto_height: false }
    }

    /// Sets whether the height follows the content; the element's layout is then dirty.
    pub fn set_auto_height(&mut self, value: bool)
        ensures
            final(self).auto_height_spec() == value,
    {
        self.auto_height = value;
    }

    /// Whether marking the scroll dirty dirties its layout: where its height follows its content.
    pub fn mark_layout_dirty(&self) -> (layout_dirty: bool)
        ensures
            layout_dirty == self.auto_height_spec(),
    {
        self.auto_height
    }
}

/// Whether a scroll container handles an event at all: only while it can scroll, and only for
/// an event that no scroll container has consumed yet (`consumed_event_id` is the id of the last
/// event one consumed).
pub fn takes_event(is_scrollable: bool, consumed_event_id: u64, event_id: u64) -> (res: bool)
    ensures
        res == (is_scrollable && consumed_event_id != event_id),
{
    is_scrollable && consumed_event_id != event_id
}

} // verus!
