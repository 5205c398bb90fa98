//! The typed webhook event.
//!
//! An event reports one action on one external item, carrying the item's
//! current named state and two timestamps. Decoding the wire format into
//! these plain values is the receiver's concern; unknown fields of the
//! wire format are simply never handed over.

use vstd::prelude::*;

verus! {

/// One decoded webhook event. Transient: applied to the queue, never
/// persisted. Timestamps are seconds since the epoch.
pub struct WebhookEvent {
    /// The reported action kind.
    pub action: String,
    /// The reported entity kind.
    pub event_type: String,
    /// When the item entered its current state, from the event itself
    /// (not wall clock at intake).
    pub created_at: i64,
    /// Opaque identifier of the item.
    pub id: String,
    /// Human-readable display identifier.
    pub identifier: String,
    /// Item title.
    pub title: String,
    /// The item's current named state.
    pub state_name: String,
    /// When the webhook was emitted; checked against the replay window.
    pub webhook_timestamp: i64,
}

/// The mathematical value of one event.
pub ghost struct EventModel {
    pub action: Seq<char>,
    pub event_type: Seq<char>,
    pub created_at: int,
    pub id: Seq<char>,
    pub identifier: Seq<char>,
    pub title: Seq<char>,
    pub state_name: Seq<char>,
    pub webhook_timestamp: int,
}

impl View for WebhookEvent {
    type V = EventModel;

    open spec fn view(&self) -> EventModel {
        EventModel {
            action: self.action@,
            event_type: self.event_type@,
            created_at: self.created_at as int,
            id: self.id@,
            identifier: self.identifier@,
            title: self.title@,
            state_name: self.state_name@,
            webhook_timestamp: self.webhook_timestamp as int,
        }
    }
}

} // verus!
