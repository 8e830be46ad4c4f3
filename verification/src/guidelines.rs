//! Content policies: what it means for a piece of data to be checked
//! against one.

use vstd::prelude::*;

verus! {

/// Data that can be checked against a policy of type `T`.
pub trait AgainstGuidelines<T>: Sized {
    /// The reason for which data is turned down.
    type Error;

    /// The first rule of `guidelines` that the data breaks, if it breaks
    /// any.
    spec fn violation(&self, guidelines: &T) -> Option<Self::Error>;

    /// Checks the data against `guidelines`: hands it back unchanged when it
    /// breaks no rule, and names the first broken rule otherwise.
    fn against_guidelines(self, guidelines: &T) -> (r: Result<Self, Self::Error>)
        ensures
            r == (match self.violation(guidelines) {
                None => Ok::<Self, Self::Error>(self),
                Some(error) => Err::<Self, Self::Error>(error),
            }),
    ;
}

} // verus!
