//! Failures of the in-memory home model.
use vstd::prelude::*;

verus! {

/// A lookup in the home model that found nothing.
#[derive(Debug, Clone, Copy, PartialEq, Eq, Structural)]
pub enum CommonError {
    DontExistRoom,
    DontExistInfo,
    DontExistDevice,
}

impl CommonError {
    /// The human-readable description of this error.
    pub fn message(&self) -> (r: String)
        ensures
            r@ == (match self {
                CommonError::DontExistRoom => "Dont exist Room. You need to create it"@,
                CommonError::DontExistInfo => "Dont exist Info about this Device"@,
                CommonError::DontExistDevice => "Dont exist Room. You need to create it"@,
            }),
    {
        match self {
            CommonError::DontExistRoom => String::from_str("Dont exist Room. You need to create it"),
            CommonError::DontExistInfo => String::from_str("Dont exist Info about this Device"),
            CommonError::DontExistDevice => String::from_str("Dont exist Room. You need to create it"),
        }
    }
}

} // verus!
