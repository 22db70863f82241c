//! Failure outcomes of the data-access layer.
use vstd::prelude::*;

verus! {

/// What went wrong in a data-access operation, with a readable message.
#[derive(Debug, Clone)]
pub enum DataError {
    /// The identifier (or identifier chain) resolves to no row.
    NotFound(String),
    /// A storage fault: a broken constraint or an exhausted resource.
    InternalError(String),
}

pub type DataResult<T> = Result<T, DataError>;

/// The kind of a [`DataError`], without its message.
#[derive(Debug, Clone, Copy, PartialEq, Eq, Structural)]
pub enum ErrorKind {
    NotFound,
    Internal,
}

impl View for DataError {
    type V = ErrorKind;

    open spec fn view(&self) -> ErrorKind {
        match self {
            DataError::NotFound(_) => ErrorKind::NotFound,
            DataError::InternalError(_) => ErrorKind::Internal,
        }
    }
}

/// A result with its value and its error seen through their views.
pub open spec fn result_view<T: View>(r: Result<T, DataError>) -> Result<T::V, ErrorKind> {
    match r {
        Ok(v) => Ok(v@),
        Err(e) => Err(e@),
    }
}

/// The HTTP status that stands for each kind of error.
pub open spec fn status_of(k: ErrorKind) -> u16 {
    match k {
        ErrorKind::NotFound => 404,
        ErrorKind::Internal => 500,
    }
}

impl DataError {
    /// The kind of this error.
    pub fn kind(&self) -> (r: ErrorKind)
        ensures
            r == self@,
    {
        match self {
            DataError::NotFound(_) => ErrorKind::NotFound,
            DataError::InternalError(_) => ErrorKind::Internal,
        }
    }

    /// The HTTP status code this error is answered with.
    pub fn status_code(&self) -> (r: u16)
        ensures
            r == status_of(self@),
    {
        match self {
            DataError::NotFound(_) => 404,
            DataError::InternalError(_) => 500,
        }
    }

    /// The human-readable description of this error.
    pub fn message(&self) -> (r: String)
        ensures
            r@ == (match self {
                DataError::NotFound(m) => "Endpoint is not found: "@ + m@,
                DataError::InternalError(m) => "Internal server error: "@ + m@,
            }),
    {
        match self {
            DataError::NotFound(m) => {
                let mut s = String::from_str("Endpoint is not found: ");
                s.append(m.as_str());
                s
            },
            DataError::InternalError(m) => {
                let mut s = String::from_str("Internal server error: ");
                s.append(m.as_str());
                s
            },
        }
    }
}

} // verus!
