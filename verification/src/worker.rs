//! The recurring reminder worker's decisions.
//!
//! Each tick claims at most one item. A claimed item young enough to wait
//! is released at once; a due item is handed to the caller, which
//! delivers the reminder through the external notifier and reports the
//! outcome back. Delivery commits the claim and marks the item reminded;
//! anything else rolls the claim back, so the item is retried on a later
//! tick.

use vstd::prelude::*;
use vstd::string::*;

use crate::queue::Claim;
use crate::queue::IssueQueue;
use crate::queue::claimable;
use crate::queue::commit_spec;
use crate::queue::contains_id;
use crate::queue::idx_of;
use crate::queue::set_locked_spec;

verus! {

/// Whether a tracked item's age has passed the reminder threshold.
pub fn is_due(created_at: i64, now: i64, threshold: u64) -> (r: bool)
    ensures
        r == (now - created_at > threshold),
{
    (now as i128) - (created_at as i128) > (threshold as i128)
}

/// One tick's claim step: claims the oldest unreminded, unheld row, and
/// returns it only when its age exceeds `threshold`. A claimed row that
/// is not yet due is released on the spot, and nothing further is tried
/// within the tick. `None` leaves the queue exactly as it was, and comes
/// exactly when no claimable row is due.
pub fn worker_tick(q: &mut IssueQueue, now: i64, threshold: u64) -> (r: Option<Claim>)
    requires
        old(q).wf(),
    ensures
        final(q).wf(),
        r matches Some(c) ==> {
            &&& 0 <= c.idx@ < old(q)@.len()
            &&& old(q)@[c.idx@].issue == c.issue@
            &&& claimable(old(q)@[c.idx@])
            &&& now - c.issue@.created_at > threshold
            &&& forall|j: int|
                0 <= j < old(q)@.len() && claimable(old(q)@[j]) ==> c.issue@.created_at
                    <= old(q)@[j].issue.created_at
            &&& final(q)@ == set_locked_spec(old(q)@, c.idx@, true)
        },
        r matches Some(c) ==> forall|j: int|
            0 <= j < old(q)@.len() && old(q)@[j].issue.reminded ==> old(q)@[j].issue.id
                != c.issue@.id,
        r is None ==> final(q)@ == old(q)@ && forall|j: int|
            0 <= j < old(q)@.len() && claimable(old(q)@[j]) ==> now - old(q)@[j].issue.created_at
                <= threshold,
{
    let ghost before = q@;
    let claimed = q.claim_oldest_due();
    match claimed {
        None => None,
        Some(c) => {
            if is_due(c.issue.created_at, now, threshold) {
                Some(c)
            } else {
                let ghost held = q@;
                let ghost i = c.idx@;
                proof {
                    assert(held[i].issue.id == c.issue@.id);
                    assert(contains_id(held, c.issue@.id));
                    crate::queue::lemma_idx_of_unique(held, c.issue@.id, i);
                }
                q.rollback(&c);
                proof {
                    assert(q@ =~= before);
                    assert forall|j: int|
                        0 <= j < before.len() && claimable(before[j]) implies now
                        - before[j].issue.created_at <= threshold by {
                        assert(before[i].issue.created_at <= before[j].issue.created_at);
                    }
                }
                None
            }
        },
    }
}

/// The mutation asking the notifier to post `message` as a comment on
/// the item `issue_id`. The caller sends it as the query field of the
/// outbound request; `message` and `issue_id` are interpolated verbatim,
/// so a message holding a quote character is the caller's to escape.
pub fn comment_mutation(message: &str, issue_id: &str) -> (r: String)
    ensures
        r@ == "mutation CommentCreate { commentCreate( input: { body: \""@ + message@
            + "\" issueId: \""@ + issue_id@ + "\" } ) { success } }"@,
{
    let mut s = String::from_str("mutation CommentCreate { commentCreate( input: { body: \"");
    s.append(message);
    s.append("\" issueId: \"");
    s.append(issue_id);
    s.append("\" } ) { success } }");
    s
}

/// Finalises a worker claim on the notifier's outcome: a confirmed
/// delivery commits the claim, marking the row reminded; any failure
/// rolls it back unchanged, leaving the item for a later tick. Reports
/// whether the claimed row was still present and held.
pub fn worker_finish(q: &mut IssueQueue, claim: &Claim, delivered: bool) -> (r: bool)
    requires
        old(q).wf(),
    ensures
        final(q).wf(),
        r == (contains_id(old(q)@, claim.issue@.id) && old(q)@[idx_of(
            old(q)@,
            claim.issue@.id,
        )].locked),
        r && delivered ==> final(q)@ == commit_spec(
            old(q)@,
            idx_of(old(q)@, claim.issue@.id),
            true,
        ),
        r && !delivered ==> final(q)@ == set_locked_spec(
            old(q)@,
            idx_of(old(q)@, claim.issue@.id),
            false,
        ),
        !r ==> final(q)@ == old(q)@,
{
    if delivered {
        q.commit(claim, true)
    } else {
        q.rollback(claim)
    }
}

} // verus!
