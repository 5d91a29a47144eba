//! User-space readiness core of a non-blocking I/O multiplexer.
//!
//! Client code registers sources with a [`Poll`] instance and later drains
//! readiness events out of it.  The heart of the crate is the user-space
//! readiness queue: a queue of per-registration nodes that producers
//! (`SetReadiness` handles) push into and that the single consumer
//! (`Poll::poll`) drains into an event buffer, together with the packed
//! per-node state word, the token-slot rotation, the sleep/wake handshake
//! with an awakener, and reference counting of the shared nodes.

pub mod entry;
pub mod events;
pub mod laws;
pub mod node;
pub mod poll;
pub mod queue;
pub mod ready;
pub mod registration;
pub mod state;

pub use events::Events;
pub use events::EventsIter;
pub use node::ReadinessNode;
pub use poll::Evented;
pub use poll::Poll;
pub use queue::Awakener;
pub use queue::Dequeue;
pub use queue::QueueEntry;
pub use queue::ReadinessQueue;
pub use ready::Error;
pub use ready::Event;
pub use ready::PollOpt;
pub use ready::Ready;
pub use ready::Token;
pub use ready::AWAKEN;
pub use registration::Registration;
pub use registration::SetReadiness;
pub use state::AtomicState;
pub use state::ReadinessState;
