//! Events that the endpoint reports to its subscribers. A value of the
//! library becomes an event in two steps: into the builder's form, which
//! the library fills in, and from there into the form that subscribers
//! read.

use vstd::prelude::*;

pub mod api;
pub mod builder;

verus! {

/// A value that can be reported as an event of type `Target`.
pub trait IntoEvent<Target>: Sized {
    /// The event that reports this value.
    spec fn as_event(self) -> Target;

    /// The event that reports this value.
    fn into_event(self) -> (event: Target)
        ensures
            event == self.as_event(),
    ;
}

} // verus!
