//! Errors that local-control requests are answered with.

use vstd::prelude::*;

verus! {

/// What kind of failure a local-control request met.
#[derive(Clone, Copy, Debug, PartialEq, Eq, Structural)]
pub enum ErrorCode {
    MissingTarget,
    StaleTarget,
    AmbiguousTarget,
    InvalidSelector,
    InvalidParams,
    Internal,
    NotAllowlisted,
    UnsupportedAction,
}

/// A local-control error: its code, a message for people, and optional details.
#[derive(Debug)]
pub struct ControlError {
    pub code: ErrorCode,
    pub message: String,
    pub details: Option<String>,
}

/// The text `a` followed by `b`.
pub fn concat2(a: &str, b: &str) -> (s: String)
    ensures
        s@ == a@ + b@,
{
    let mut s = String::from_str(a);
    s.append(b);
    s
}

/// The text `a`, `b` and `c` one after the other.
pub fn concat3(a: &str, b: &str, c: &str) -> (s: String)
    ensures
        s@ == a@ + b@ + c@,
{
    let mut s = String::from_str(a);
    s.append(b);
    s.append(c);
    s
}

impl ControlError {
    /// An error with `code` and `message` and no details.
    pub fn new(code: ErrorCode, message: String) -> (e: Self)
        ensures
            e.code == code,
            e.message@ == message@,
            e.details is None,
    {
        ControlError { code, message, details: None }
    }

    /// An error with `code`, `message` and `details`.
    pub fn with_details(code: ErrorCode, message: String, details: String) -> (e: Self)
        ensures
            e.code == code,
            e.message@ == message@,
            e.details matches Some(d) && d@ == details@,
    {
        ControlError { code, message, details: Some(details) }
    }

    /// A copy of this error.
    pub fn duplicate(&self) -> (e: Self)
        ensures
            e.code == self.code,
            e.message@ == self.message@,
            e.details is Some <==> self.details is Some,
            e.details matches Some(d) ==> d@ == self.details->0@,
    {
        ControlError {
            code: self.code,
            message: self.message.clone(),
            details: match &self.details {
                Some(d) => Some(d.clone()),
                None => None,
            },
        }
    }
}

} // verus!
