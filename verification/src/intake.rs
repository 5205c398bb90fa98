//! Applying one webhook event to the queue.
//!
//! Intake authenticates the raw body, rejects stale (possibly replayed)
//! events, and then either tracks the item (it entered the eligible
//! state) or untracks it (it left), all before anything else observes the
//! event. The receiver decodes the body into a [`WebhookEvent`] and hands
//! the decoded value in alongside the raw bytes; a body it could not
//! decode is handed in as `None`.

use vstd::prelude::*;
use vstd::string::*;

use crate::event::WebhookEvent;
use crate::queue::IssueQueue;
use crate::queue::remove_spec;
use crate::queue::upsert_spec;
use crate::signature::is_valid_signature;
use crate::signature::signature_matches;
use crate::text::str_eq;

verus! {

/// Events older than this many seconds are rejected as replays.
pub const REPLAY_WINDOW_SECS: u64 = 60;

/// The intake outcome, surfaced to the receiver as a status code.
#[derive(Debug, PartialEq, Eq, Structural)]
pub enum Outcome {
    /// The event was applied, or deliberately ignored.
    Accepted,
    /// The signature did not authenticate the body.
    Unauthorized,
    /// The body could not be decoded, or the event was stale.
    BadRequest,
}

/// An event is stale when its declared emission time lies more than the
/// replay window before `now`.
pub open spec fn stale_spec(webhook_timestamp: int, now: int) -> bool {
    now - webhook_timestamp > REPLAY_WINDOW_SECS
}

/// The replay check over plain timestamps.
pub fn is_stale(webhook_timestamp: i64, now: i64) -> (r: bool)
    ensures
        r == stale_spec(webhook_timestamp as int, now as int),
{
    (now as i128) - (webhook_timestamp as i128) > (REPLAY_WINDOW_SECS as i128)
}

/// Applies one webhook request to the queue, in one transaction.
///
/// The request is rejected — with no queue change — unless `signature`
/// authenticates `body` under `secret`, the body decoded (`event` is
/// present), and the event is fresh. An accepted event whose item state
/// equals `target_status` tracks the item (insert-or-ignore); any other
/// accepted event untracks it (delete-if-present).
pub fn handle(
    q: &mut IssueQueue,
    body: &[u8],
    signature: &str,
    secret: &[u8],
    event: Option<&WebhookEvent>,
    now: i64,
    target_status: &str,
) -> (r: Outcome)
    requires
        old(q).wf(),
    ensures
        final(q).wf(),
        ({
            let authentic = signature_matches(signature.spec_bytes(), body@, secret@);
            if !authentic {
                r == Outcome::Unauthorized && final(q)@ == old(q)@
            } else {
                match event {
                    None => r == Outcome::BadRequest && final(q)@ == old(q)@,
                    Some(e) => {
                        if stale_spec(e.webhook_timestamp as int, now as int) {
                            r == Outcome::BadRequest && final(q)@ == old(q)@
                        } else if e.state_name@ == target_status@ {
                            r == Outcome::Accepted && final(q)@ == upsert_spec(
                                old(q)@,
                                e.id@,
                                e.identifier@,
                                e.title@,
                                e.created_at as int,
                            )
                        } else {
                            r == Outcome::Accepted && final(q)@ == remove_spec(old(q)@, e.id@)
                        }
                    },
                }
            }
        }),
{
    if !is_valid_signature(signature, body, secret) {
        return Outcome::Unauthorized;
    }
    match event {
        None => Outcome::BadRequest,
        Some(e) => {
            if is_stale(e.webhook_timestamp, now) {
                Outcome::BadRequest
            } else if str_eq(e.state_name.as_str(), target_status) {
                q.upsert_if_absent(
                    e.id.clone(),
                    e.identifier.clone(),
                    e.title.clone(),
                    e.created_at,
                );
                Outcome::Accepted
            } else {
                q.remove_if_present(e.id.as_str());
                Outcome::Accepted
            }
        },
    }
}

} // verus!
