//! The one error type of the library: a message for whoever asked.

use vstd::prelude::*;

verus! {

/// A failure, described by its message.
#[derive(Debug)]
pub struct Error {
    /// What went wrong.
    pub message: String,
}

impl DeepView for Error {
    type V = Seq<char>;

    open spec fn deep_view(&self) -> Seq<char> {
        self.message@
    }
}

/// A failure with the given message.
pub fn failure(message: String) -> (r: Error)
    ensures
        r.deep_view() == message@,
{
    Error { message }
}

/// A result as its value or its message.
pub open spec fn outcome<T: DeepView>(r: Result<T, Error>) -> Result<T::V, Seq<char>> {
    match r {
        Ok(t) => Ok(t.deep_view()),
        Err(e) => Err(e.deep_view()),
    }
}

} // verus!
