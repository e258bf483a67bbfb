//! The error of planning code.
use vstd::prelude::*;

verus! {

/// A failed invariant of an earlier planning stage; fatal to the query.
#[derive(Clone, Debug)]
pub enum ErrorCode {
    Internal(String),
}

impl ErrorCode {
    /// The diagnostic message.
    pub fn message(&self) -> (r: String)
        ensures
            match self {
                ErrorCode::Internal(m) => r@ == m@,
            },
    {
        match self {
            ErrorCode::Internal(m) => m.clone(),
        }
    }
}

/// An internal error with the given message.
pub fn internal(msg: &str) -> (r: ErrorCode)
    ensures
        r == ErrorCode::Internal(r->Internal_0) && r->Internal_0@ == msg@,
{
    ErrorCode::Internal(String::from_str(msg))
}

} // verus!
