use vstd::prelude::*;

verus! {

/// The kinds of screen insets that a platform reports.
#[derive(Clone, Copy, Debug, PartialEq, Eq, Structural)]
pub enum InsetType {
    StatusBar,
    Ime,
    Navigation,
}

impl InsetType {
    /// The inset kind with the platform's code `ty`: 1 the status bar, 2 the navigation bar,
    /// 8 the input method.
    pub fn from_i32(ty: i32) -> (res: Option<InsetType>)
        ensures
            res == (if ty == 1 {
                Some(InsetType::StatusBar)
            } else if ty == 2 {
                Some(InsetType::Navigation)
            } else if ty == 8 {
                Some(InsetType::Ime)
            } else {
                None
            }),
    {
        match ty {
            1 => Some(InsetType::StatusBar),
            2 => Some(InsetType::Navigation),
            8 => Some(InsetType::Ime),
            _ => None,
        }
    }
}

} // verus!
