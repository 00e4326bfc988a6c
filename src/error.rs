use vstd::prelude::*;

verus! {

/// The failures that the mediator reports to its callers.
#[derive(Clone, Copy, Debug, PartialEq, Eq, Structural)]
pub enum Error {
    /// `send` was called for a request type with no registered handler.
    HandlerNotFound,
    /// A subscriber failed while an event was published; the subscribers
    /// after it were not invoked.
    SubscriberFailure,
    /// A handler failed while it handled a request.
    HandlerFailure,
}

} // verus!
