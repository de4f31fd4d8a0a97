//! Small wrapper types handed between handlers and the outer listener.

use vstd::prelude::*;

verus! {

/// An extractor carrying a value taken from the request extensions.
pub struct Data<T>(pub T);

impl<T> Data<T> {
    /// The carried value.
    pub fn into_inner(self) -> (r: T)
        ensures
            r == self.0,
    {
        self.0
    }
}

/// An HTML response body.
pub struct Html<T>(pub T);

impl<T> Html<T> {
    /// The carried body.
    pub fn into_inner(self) -> (r: T)
        ensures
            r == self.0,
    {
        self.0
    }
}

/// A JSON payload.
pub struct Json<T>(pub T);

impl<T> Json<T> {
    /// The carried value.
    pub fn into_inner(self) -> (r: T)
        ensures
            r == self.0,
    {
        self.0
    }
}

} // verus!
