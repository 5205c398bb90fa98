use hmac::Mac;

use linear_reminder::event::WebhookEvent;
use linear_reminder::intake::handle;
use linear_reminder::intake::Outcome;
use linear_reminder::queue::IssueQueue;
use linear_reminder::signature::is_valid_signature;
use linear_reminder::worker::comment_mutation;
use linear_reminder::worker::is_due;
use linear_reminder::worker::worker_finish;
use linear_reminder::worker::worker_tick;

fn sign(body: &[u8], secret: &[u8]) -> String {
    let mut mac = hmac::SimpleHmac::<sha2::Sha256>::new_from_slice(secret).unwrap();
    mac.update(body);
    hex::encode(mac.finalize().into_bytes())
}

fn event(id: &str, state: &str, created_at: i64, webhook_timestamp: i64) -> WebhookEvent {
    WebhookEvent {
        action: String::from("update"),
        event_type: String::from("Issue"),
        created_at,
        id: String::from(id),
        identifier: String::from(id),
        title: String::from("a title"),
        state_name: String::from(state),
        webhook_timestamp,
    }
}

#[test]
fn hmac_known_vector() {
    // RFC 4231 test case 1 for HMAC-SHA256.
    let key = [0x0bu8; 20];
    let body = b"Hi There";
    let expected = "b0344c61d8db38535ca8afceaf0bf12b881dc200c9833da726e9376c2e32cff7";
    assert!(is_valid_signature(expected, body, &key));
    assert!(!is_valid_signature(expected, b"Hi there", &key));
}

#[test]
fn signature_accepts_computed_and_rejects_tampered() {
    let secret = b"a shared secret";
    let body = b"{\"action\":\"update\"}";
    let good = sign(body, secret);
    assert!(is_valid_signature(&good, body, secret));
    assert!(!is_valid_signature(&good, b"{\"action\":\"remove\"}", secret));
    let mut bad = good.clone();
    bad.pop();
    bad.push('0');
    let flipped = if good.ends_with('0') {
        format!("{}1", &good[..good.len() - 1])
    } else {
        bad
    };
    assert!(!is_valid_signature(&flipped, body, secret));
    assert!(!is_valid_signature("", body, secret));
}

#[test]
fn queue_upsert_idempotent() {
    let mut q = IssueQueue::new();
    q.upsert_if_absent(String::from("A"), String::from("A-1"), String::from("t"), 100);
    q.upsert_if_absent(String::from("A"), String::from("A-1"), String::from("t"), 100);
    assert_eq!(q.len(), 1);
}

#[test]
fn queue_first_write_wins() {
    let mut q = IssueQueue::new();
    q.upsert_if_absent(String::from("A"), String::from("A-1"), String::from("t"), 100);
    q.upsert_if_absent(String::from("A"), String::from("A-2"), String::from("u"), 999);
    let row = q.lookup("A").unwrap();
    assert_eq!(row.created_at, 100);
    assert_eq!(row.identifier, "A-1");
    assert!(!row.reminded);
}

#[test]
fn queue_remove_roundtrip() {
    let mut q = IssueQueue::new();
    q.upsert_if_absent(String::from("A"), String::from("A-1"), String::from("t"), 100);
    assert!(q.contains("A"));
    assert!(q.remove_if_present("A"));
    assert!(!q.contains("A"));
    assert_eq!(q.len(), 0);
    assert!(!q.remove_if_present("A"));
}

#[test]
fn queue_reminded_then_removed() {
    let mut q = IssueQueue::new();
    q.upsert_if_absent(String::from("A"), String::from("A-1"), String::from("t"), 100);
    let claim = worker_tick(&mut q, 200, 10).expect("item is due");
    assert!(worker_finish(&mut q, &claim, true));
    assert!(q.lookup("A").unwrap().reminded);
    assert!(q.remove_if_present("A"));
    assert!(!q.contains("A"));
}

#[test]
fn claim_oldest_first() {
    let mut q = IssueQueue::new();
    q.upsert_if_absent(String::from("B"), String::from("B-1"), String::from("t"), 150);
    q.upsert_if_absent(String::from("A"), String::from("A-1"), String::from("t"), 100);
    let claim = worker_tick(&mut q, 1000, 10).expect("both items are due");
    assert_eq!(claim.issue.id, "A");
    assert_eq!(claim.issue.created_at, 100);
}

#[test]
fn claim_none_when_all_reminded() {
    let mut q = IssueQueue::new();
    q.upsert_if_absent(String::from("A"), String::from("A-1"), String::from("t"), 100);
    let claim = worker_tick(&mut q, 1000, 10).expect("item is due");
    assert!(worker_finish(&mut q, &claim, true));
    assert!(worker_tick(&mut q, 2000, 10).is_none());
    assert!(q.contains("A"));
}

#[test]
fn worker_no_premature_claim() {
    let mut q = IssueQueue::new();
    q.upsert_if_absent(String::from("A"), String::from("A-1"), String::from("t"), 100);
    // Age equal to the threshold is not yet due.
    assert!(worker_tick(&mut q, 160, 60).is_none());
    // The release left the item claimable for the next tick.
    let claim = worker_tick(&mut q, 161, 60).expect("one second past the threshold");
    assert_eq!(claim.issue.id, "A");
}

#[test]
fn worker_retry_after_failure() {
    let mut q = IssueQueue::new();
    q.upsert_if_absent(String::from("A"), String::from("A-1"), String::from("t"), 100);
    let claim = worker_tick(&mut q, 1000, 60).expect("item is due");
    // The notifier failed: the claim is rolled back, nothing is marked.
    assert!(worker_finish(&mut q, &claim, false));
    assert!(!q.lookup("A").unwrap().reminded);
    // The next tick retries the same item.
    let retry = worker_tick(&mut q, 1005, 60).expect("still due");
    assert_eq!(retry.issue.id, "A");
    assert!(worker_finish(&mut q, &retry, true));
    assert!(q.lookup("A").unwrap().reminded);
}

#[test]
fn is_due_boundaries() {
    assert!(!is_due(100, 160, 60));
    assert!(is_due(100, 161, 60));
    assert!(!is_due(100, 50, 60));
    assert!(is_due(i64::MIN, i64::MAX, 60));
}

#[test]
fn comment_mutation_exact() {
    assert_eq!(
        comment_mutation("What is the status of this issue?", "bf7403"),
        "mutation CommentCreate { commentCreate( input: { body: \"What is the status of this issue?\" issueId: \"bf7403\" } ) { success } }"
    );
}

#[test]
fn scenario_eligible_then_reminded() {
    let secret = b"hook secret";
    let threshold: u64 = 3600;
    let t0: i64 = 1_700_000_000;
    let mut q = IssueQueue::new();

    let body = b"{\"item\":\"A\"}";
    let sig = sign(body, secret);
    let ev = event("A", "eligible", t0, t0);
    let outcome = handle(&mut q, body, &sig, secret, Some(&ev), t0, "eligible");
    assert_eq!(outcome, Outcome::Accepted);
    let row = q.lookup("A").expect("row written");
    assert_eq!(row.created_at, t0);
    assert!(!row.reminded);

    // One tick past the threshold: exactly one claim, then delivery.
    let now = t0 + threshold as i64 + 1;
    let claim = worker_tick(&mut q, now, threshold).expect("item is due");
    assert_eq!(claim.issue.id, "A");
    assert!(worker_finish(&mut q, &claim, true));
    let row = q.lookup("A").expect("row kept");
    assert_eq!(row.created_at, t0);
    assert!(row.reminded);
    // No further notification is ever owed for the item.
    assert!(worker_tick(&mut q, now + 100, threshold).is_none());
}

#[test]
fn scenario_notifier_failure_retries() {
    let threshold: u64 = 3600;
    let t0: i64 = 1_700_000_000;
    let mut q = IssueQueue::new();
    q.upsert_if_absent(String::from("A"), String::from("A-1"), String::from("t"), t0);

    let now = t0 + threshold as i64 + 1;
    let claim = worker_tick(&mut q, now, threshold).expect("item is due");
    // The notifier answered with a server error.
    assert!(worker_finish(&mut q, &claim, false));
    let row = q.lookup("A").unwrap();
    assert_eq!(row.created_at, t0);
    assert!(!row.reminded);
    // The next tick retries the call.
    assert!(worker_tick(&mut q, now + 5, threshold).is_some());
}

#[test]
fn scenario_eligible_then_closed() {
    let secret = b"hook secret";
    let threshold: u64 = 3600;
    let t0: i64 = 1_700_000_000;
    let mut q = IssueQueue::new();

    let body_open = b"{\"item\":\"B\",\"state\":\"eligible\"}";
    let sig_open = sign(body_open, secret);
    let ev_open = event("B", "eligible", t0, t0);
    let outcome = handle(&mut q, body_open, &sig_open, secret, Some(&ev_open), t0, "eligible");
    assert_eq!(outcome, Outcome::Accepted);
    assert!(q.contains("B"));

    let body_close = b"{\"item\":\"B\",\"state\":\"closed\"}";
    let sig_close = sign(body_close, secret);
    let ev_close = event("B", "closed", t0 + 10, t0 + 10);
    let outcome = handle(
        &mut q,
        body_close,
        &sig_close,
        secret,
        Some(&ev_close),
        t0 + 10,
        "eligible",
    );
    assert_eq!(outcome, Outcome::Accepted);
    assert!(!q.contains("B"));
    // No tick ever claims the item: it was never left in the queue.
    assert!(worker_tick(&mut q, t0 + threshold as i64 + 100, threshold).is_none());
}

#[test]
fn intake_unauthorized_writes_nothing() {
    let secret = b"hook secret";
    let t0: i64 = 1_700_000_000;
    let mut q = IssueQueue::new();
    let body = b"{\"item\":\"A\"}";
    let ev = event("A", "eligible", t0, t0);
    let outcome = handle(&mut q, body, "not the signature", secret, Some(&ev), t0, "eligible");
    assert_eq!(outcome, Outcome::Unauthorized);
    assert_eq!(q.len(), 0);
    // A signature computed under another secret is rejected too.
    let forged = sign(body, b"other secret");
    let outcome = handle(&mut q, body, &forged, secret, Some(&ev), t0, "eligible");
    assert_eq!(outcome, Outcome::Unauthorized);
    assert_eq!(q.len(), 0);
    assert!(worker_tick(&mut q, t0 + 100_000, 60).is_none());
}

#[test]
fn intake_replay_rejected() {
    let secret = b"hook secret";
    let t0: i64 = 1_700_000_000;
    let mut q = IssueQueue::new();
    let body = b"{\"item\":\"A\"}";
    let sig = sign(body, secret);
    // Emitted 61 seconds before now: stale.
    let stale_ev = event("A", "eligible", t0 - 61, t0 - 61);
    let outcome = handle(&mut q, body, &sig, secret, Some(&stale_ev), t0, "eligible");
    assert_eq!(outcome, Outcome::BadRequest);
    assert_eq!(q.len(), 0);
    // Exactly 60 seconds old is still within the window.
    let edge_ev = event("A", "eligible", t0 - 60, t0 - 60);
    let outcome = handle(&mut q, body, &sig, secret, Some(&edge_ev), t0, "eligible");
    assert_eq!(outcome, Outcome::Accepted);
    assert_eq!(q.len(), 1);
}

#[test]
fn intake_undecodable_body_rejected() {
    let secret = b"hook secret";
    let mut q = IssueQueue::new();
    let body = b"not json at all";
    let sig = sign(body, secret);
    let outcome = handle(&mut q, body, &sig, secret, None, 1_700_000_000, "eligible");
    assert_eq!(outcome, Outcome::BadRequest);
    assert_eq!(q.len(), 0);
}

#[test]
fn intake_other_state_untracks_only() {
    let secret = b"hook secret";
    let t0: i64 = 1_700_000_000;
    let mut q = IssueQueue::new();
    let body = b"{\"item\":\"A\"}";
    let sig = sign(body, secret);
    // An event for an untracked item in a non-target state changes nothing.
    let ev = event("A", "closed", t0, t0);
    let outcome = handle(&mut q, body, &sig, secret, Some(&ev), t0, "eligible");
    assert_eq!(outcome, Outcome::Accepted);
    assert_eq!(q.len(), 0);
}
