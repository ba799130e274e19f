use vstd::prelude::*;

verus! {

pub const KEY_MOD_CTRL: u32 = 0x1;
pub const KEY_MOD_ALT: u32 = 0x2;
pub const KEY_MOD_META: u32 = 0x4;
pub const KEY_MOD_SHIFT: u32 = 0x8;

/// The modifier bits of a key event: alt, control, super (meta) and shift.
pub fn build_modifier(alt_key: bool, control_key: bool, super_key: bool, shift_key: bool) -> (res: u32)
    ensures
        res == (if alt_key { KEY_MOD_ALT } else { 0 }) + (if control_key { KEY_MOD_CTRL } else { 0 })
            + (if super_key { KEY_MOD_META } else { 0 }) + (if shift_key { KEY_MOD_SHIFT } else { 0 }),
{
    let mut modifiers: u32 = 0;
    if alt_key {
        modifiers = modifiers + KEY_MOD_ALT;
    }
    if control_key {
        modifiers = modifiers + KEY_MOD_CTRL;
    }
    if super_key {
        modifiers = modifiers + KEY_MOD_META;
    }
    if shift_key {
        modifiers = modifiers + KEY_MOD_SHIFT;
    }
    modifiers
}

/// The named keys that text fields act on; every other named key is `Other`.
#[derive(Clone, Copy, Debug, PartialEq, Eq, Structural)]
pub enum NamedKey {
    Backspace,
    Enter,
    ArrowLeft,
    ArrowRight,
    ArrowUp,
    ArrowDown,
    Space,
    Tab,
    Other,
}

pub struct KeyEventDetail {
    pub modifiers: u32,
    pub ctrl_key: bool,
    pub alt_key: bool,
    pub meta_key: bool,
    pub shift_key: bool,
    pub named_key: Option<NamedKey>,
    pub key: Option<String>,
    pub key_str: Option<String>,
    pub repeat: bool,
    pub pressed: bool,
}

pub struct TextUpdateEvent {
    pub value: String,
}

pub struct TextChangeEvent {
    pub value: String,
}

pub struct FocusEvent;

pub struct BlurEvent;

pub struct FocusShiftEvent;

pub struct DragStartEvent;

pub struct DragOverEvent;

pub struct DropEvent;

} // verus!
