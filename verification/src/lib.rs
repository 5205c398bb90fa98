//! Verified core of a webhook-driven reminder service.
//!
//! Inbound events report external work items entering or leaving an
//! "eligible" state. Authenticated events feed a queue of tracked items;
//! a recurring worker claims the oldest unreminded item that has aged past
//! a configured threshold, delivers one reminder through an external
//! notifier, and commits or rolls back the claim on the outcome.
//!
//! The HTTP receiver, the durable store and the notifier are external
//! collaborators; this crate holds the decision logic between them, with
//! the queue modelled as a sequence of rows under row-claim semantics.

pub mod config;
pub mod event;
pub mod intake;
pub mod queue;
pub mod signature;
mod text;
pub mod worker;
