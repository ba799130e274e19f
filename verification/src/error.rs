use vstd::prelude::*;

verus! {

pub enum DeftError {
    InvalidState,
    InvalidParameter,
    Internal(String),
}

impl DeftError {
    /// The message of the error.
    pub fn message(&self) -> (res: String)
        ensures
            res@ == (match self {
                DeftError::InvalidState => "invalid state"@,
                DeftError::InvalidParameter => "invalid parameter"@,
                DeftError::Internal(m) => m@,
            }),
    {
        match self {
            DeftError::InvalidState => "invalid state".to_owned(),
            DeftError::InvalidParameter => "invalid parameter".to_owned(),
            DeftError::Internal(message) => message.clone(),
        }
    }
}

} // verus!
