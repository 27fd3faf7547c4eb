use vstd::prelude::*;
use crate::text::concat;

verus! {

/// Failures the surrounding application reports.
#[derive(Clone, Debug)]
pub enum AppError {
    Database(String),
    Network(String),
    Io(String),
    Unknown(String),
}

/// The text shown for an error: a label for its kind, then its detail.
pub open spec fn error_text(e: AppError) -> Seq<char> {
    match e {
        AppError::Database(m) => "Database Error: "@ + m@,
        AppError::Network(m) => "Network Error: "@ + m@,
        AppError::Io(m) => "I/O Error: "@ + m@,
        AppError::Unknown(m) => "Error: "@ + m@,
    }
}

impl AppError {
    /// The text shown for this error.
    pub fn message(&self) -> (r: String)
        ensures
            r@ == error_text(*self),
    {
        match self {
            AppError::Database(m) => concat("Database Error: ", m.as_str()),
            AppError::Network(m) => concat("Network Error: ", m.as_str()),
            AppError::Io(m) => concat("I/O Error: ", m.as_str()),
            AppError::Unknown(m) => concat("Error: ", m.as_str()),
        }
    }
}

} // verus!
