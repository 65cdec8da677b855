//! The failure kinds a reading operation can surface.

use vstd::prelude::*;

verus! {

/// A failure surfaced by session creation or by a read of the session.
#[derive(Debug, PartialEq, Eq)]
pub enum Error {
    /// An OS-level failure, carrying the underlying error code.
    System(i32),
    /// A protocol-level invariant violation, carrying a description.
    Internal(String),
}

impl Error {
    /// The OS error code, where this failure came from the OS.
    pub fn code(&self) -> (r: Option<i32>)
        ensures
            self is System ==> r == Some(self->System_0),
            self is Internal ==> r is None,
    {
        match self {
            Error::System(c) => Some(*c),
            Error::Internal(_) => None,
        }
    }
}

} // verus!
