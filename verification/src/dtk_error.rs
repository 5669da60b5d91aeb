//! The application's plain error type.

use vstd::prelude::*;
use vstd::string::*;

verus! {

/// An error carrying a message for the caller.
#[derive(Clone, Debug, PartialEq, Eq)]
pub struct DtkError(String);

impl View for DtkError {
    type V = Seq<char>;

    closed spec fn view(&self) -> Seq<char> {
        self.0@
    }
}

impl DtkError {
    /// Wrap a message.
    pub fn new(error: &str) -> (r: DtkError)
        ensures
            r@ == error@,
    {
        DtkError(error.to_owned())
    }

    /// The carried message.
    pub fn message(&self) -> (r: &str)
        ensures
            r@ == self@,
    {
        self.0.as_str()
    }
}

} // verus!
