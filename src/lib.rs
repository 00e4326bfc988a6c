//! An in-process mediator: requests are routed to the one handler registered
//! for their type, events are broadcast to the subscribers registered for
//! theirs, in registration order.
pub mod builder;
pub mod error;
pub mod key;
pub mod mediator;
pub mod registry;
pub mod subscriber;

pub use builder::{Builder, HandlerSource};
pub use error::Error;
pub use key::TypeKey;
pub use mediator::Mediator;
pub use registry::{HandlerRegistry, SubscriberRegistry};
pub use subscriber::Subscriber;
