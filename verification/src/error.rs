//! The error of an operation that failed for a reason internal to the
//! node.

use vstd::prelude::*;

verus! {

/// An internal failure, known by its text.
#[derive(Clone, Debug, PartialEq, Eq)]
pub struct InternalError {
    message: String,
}

impl View for InternalError {
    type V = Seq<char>;

    /// The text of the error.
    closed spec fn view(&self) -> Seq<char> {
        self.message@
    }
}

impl InternalError {
    /// An error with the given text.
    pub fn with_message(message: String) -> (r: InternalError)
        ensures
            r@ == message@,
    {
        InternalError { message }
    }

    /// The text of the error.
    pub fn message(&self) -> (r: &str)
        ensures
            r@ == self@,
    {
        self.message.as_str()
    }

    /// The text of the error, as an owned string.
    pub fn to_string(&self) -> (r: String)
        ensures
            r@ == self@,
    {
        self.message.clone()
    }
}

} // verus!
