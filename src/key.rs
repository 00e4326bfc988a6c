use vstd::prelude::*;

verus! {

/// The lookup identifier of a message type.
///
/// `message` identifies the message type itself. For a request, `response`
/// identifies the response type that it declares, so that two request types
/// that share a response type, or one request type read with two response
/// types, never share a key. An event declares no response.
#[derive(Clone, Copy, Debug, PartialEq, Eq, Hash, Structural)]
pub struct TypeKey {
    pub message: u64,
    pub response: Option<u64>,
}

impl TypeKey {
    /// The key of a request type that declares the given response type.
    pub fn request(message: u64, response: u64) -> (k: TypeKey)
        ensures
            k.message == message,
            k.response == Some(response),
    {
        TypeKey { message, response: Some(response) }
    }

    /// The key of an event type.
    pub fn event(message: u64) -> (k: TypeKey)
        ensures
            k.message == message,
            k.response is None,
    {
        TypeKey { message, response: None }
    }
}

} // verus!
