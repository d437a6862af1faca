//! An in-memory message broker: producers publish messages tagged with a
//! channel name, consumers take up to a given number of the oldest messages
//! of one channel, which leaves the store as they are handed out.

pub mod message;
pub mod broker;
pub mod queue;
pub mod request;
pub mod laws;

pub use message::Message;
pub use broker::{BrokerError, MessageBroker};
pub use queue::LockedMessageQueue;
pub use request::ConsumeQuery;
