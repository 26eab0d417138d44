//! The error of this library: a message for the user.
use vstd::prelude::*;

verus! {

/// A failure, described by a message for the user.
#[derive(Debug)]
pub struct Error(pub String);

impl Error {
    /// The message.
    pub fn message(&self) -> (m: &str)
        ensures
            m@ == self.0@,
    {
        self.0.as_str()
    }
}

} // verus!
