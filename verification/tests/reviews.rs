use veridion::evidence::Ledger;
use veridion::payload::{Payload, PayloadField, PayloadValue};
use veridion::review_queue::{
    create_review, decide_review, decide_review_with_evidence, get_decided_evidence_event_ids,
    list_reviews, OversightStatus, ReviewError, ReviewQueue,
};

const NOW: u64 = 1_700_000_000_000;
const SALT: &str = "test-salt";

fn context() -> Payload {
    Payload {
        fields: vec![PayloadField {
            key: "destination".to_string(),
            value: PayloadValue::Text("United States".to_string()),
        }],
    }
}

fn open_review(queue: &mut ReviewQueue, eid: &str) -> String {
    create_review(queue, "sovereign-shield", "transfer_data_to_us", "sovereign-shield", &context(), eid, NOW)
}

#[test]
fn create_review_is_idempotent_on_evidence_id() {
    let mut queue = ReviewQueue::new();
    let seal1 = open_review(&mut queue, "evt-1");
    let seal2 = open_review(&mut queue, "evt-1");
    assert_eq!(seal1, seal2);
    assert_eq!(queue.count(), 1);
    let seal3 = open_review(&mut queue, "evt-2");
    assert_ne!(seal1, seal3);
    assert_eq!(queue.count(), 2);
}

#[test]
fn seal_and_tx_formats() {
    let mut queue = ReviewQueue::new();
    let seal = open_review(&mut queue, "evt-1");
    assert_eq!(seal.len(), 21);
    assert!(seal.starts_with("SEAL-"));
    assert!(seal[5..].chars().all(|c| c.is_ascii_hexdigit() && !c.is_ascii_lowercase()));
    let entry = queue.get(0);
    assert_eq!(entry.record.seal_id, seal);
    assert_eq!(entry.oversight.seal_id, seal);
    assert_eq!(entry.record.tx_id.len(), 15);
    assert!(entry.record.tx_id.starts_with("TX-"));
    assert!(entry.record.tx_id[3..].chars().all(|c| c.is_ascii_hexdigit()
        && !c.is_ascii_lowercase()));
    assert_eq!(entry.oversight.status, OversightStatus::Pending);
    assert_eq!(entry.record.human_oversight_status, OversightStatus::Pending);
    assert_eq!(entry.record.evidence_event_id.as_deref(), Some("evt-1"));
}

#[test]
fn decide_moves_pending_to_terminal() {
    let mut queue = ReviewQueue::new();
    let seal = open_review(&mut queue, "evt-1");
    let r = decide_review(&mut queue, &seal, "APPROVE", "alice", "fine", NOW + 5);
    assert_eq!(r, Ok(OversightStatus::Approved));
    let entry = queue.get(0);
    assert_eq!(entry.oversight.status, OversightStatus::Approved);
    assert_eq!(entry.record.human_oversight_status, OversightStatus::Approved);
    assert_eq!(entry.oversight.reviewer_id.as_deref(), Some("alice"));
    assert_eq!(entry.oversight.decided_at, Some(NOW + 5));
    assert_eq!(entry.oversight.comments.as_deref(), Some("fine"));
}

#[test]
fn decision_terminality() {
    let mut queue = ReviewQueue::new();
    let seal = open_review(&mut queue, "evt-1");
    assert_eq!(
        decide_review(&mut queue, &seal, "BLOCK", "alice", "no", NOW),
        Ok(OversightStatus::Rejected)
    );
    // A terminal status never changes again: every further decision conflicts.
    for d in ["APPROVE", "ALLOW", "REJECT", "BLOCK"] {
        assert_eq!(
            decide_review(&mut queue, &seal, d, "bob", "again", NOW + 1),
            Err(ReviewError::Conflict)
        );
    }
    let entry = queue.get(0);
    assert_eq!(entry.oversight.status, OversightStatus::Rejected);
    assert_eq!(entry.oversight.reviewer_id.as_deref(), Some("alice"));
}

#[test]
fn decide_errors() {
    let mut queue = ReviewQueue::new();
    let seal = open_review(&mut queue, "evt-1");
    assert_eq!(
        decide_review(&mut queue, &seal, "MAYBE", "alice", "", NOW),
        Err(ReviewError::InvalidDecision)
    );
    assert_eq!(
        decide_review(&mut queue, "SEAL-DOES-NOT-EXIST", "APPROVE", "alice", "", NOW),
        Err(ReviewError::NotFound)
    );
    assert_eq!(queue.get(0).oversight.status, OversightStatus::Pending);
}

#[test]
fn decision_words_map_to_statuses() {
    for (word, status) in [
        ("ALLOW", OversightStatus::Approved),
        ("APPROVE", OversightStatus::Approved),
        ("BLOCK", OversightStatus::Rejected),
        ("REJECT", OversightStatus::Rejected),
    ] {
        let mut queue = ReviewQueue::new();
        let seal = open_review(&mut queue, "evt-1");
        assert_eq!(decide_review(&mut queue, &seal, word, "alice", "", NOW), Ok(status));
    }
}

#[test]
fn decision_is_mirrored_into_the_ledger() {
    let mut queue = ReviewQueue::new();
    let mut ledger = Ledger::new(SALT.to_string());
    let seal = open_review(&mut queue, "evt-1");
    let r = decide_review_with_evidence(
        &mut queue, &mut ledger, &seal, "REJECT", "alice", "risky", NOW,
    );
    assert_eq!(r, Ok(OversightStatus::Rejected));
    assert_eq!(ledger.chain_count(), 1);
    let chain = ledger.chain(0);
    assert_eq!(chain.source_system, "human-oversight");
    let ev = &chain.events[0];
    assert_eq!(ev.event_type, "HUMAN_OVERSIGHT_REJECTED");
    assert_eq!(ev.severity, "L2");
    assert_eq!(ev.correlation_id, seal);
    assert_eq!(ev.articles, vec!["GDPR Art. 22".to_string()]);
}

#[test]
fn listing_derives_final_decisions() {
    let mut queue = ReviewQueue::new();
    let s1 = open_review(&mut queue, "evt-1");
    let _s2 = open_review(&mut queue, "evt-2");
    decide_review(&mut queue, &s1, "APPROVE", "alice", "ok", NOW).unwrap();

    let all = list_reviews(&queue, None);
    assert_eq!(all.len(), 2);
    assert_eq!(all[0].status, "DECIDED");
    assert_eq!(all[0].final_decision.as_deref(), Some("ALLOW"));
    assert_eq!(all[0].decided_by.as_deref(), Some("alice"));
    assert_eq!(all[0].module, "sovereign-shield");
    assert_eq!(all[0].suggested_decision, "REVIEW");
    assert_eq!(all[0].evidence_id, "evt-1");
    assert_eq!(all[1].status, "PENDING");
    assert_eq!(all[1].final_decision, None);

    let pending = list_reviews(&queue, Some(OversightStatus::Pending));
    assert_eq!(pending.len(), 1);
    assert_eq!(pending[0].evidence_id, "evt-2");

    let rejected = list_reviews(&queue, Some(OversightStatus::Rejected));
    assert!(rejected.is_empty());
}

#[test]
fn decided_evidence_ids() {
    let mut queue = ReviewQueue::new();
    let s1 = open_review(&mut queue, "evt-1");
    let _s2 = open_review(&mut queue, "evt-2");
    assert!(get_decided_evidence_event_ids(&queue).is_empty());
    decide_review(&mut queue, &s1, "REJECT", "alice", "", NOW).unwrap();
    assert_eq!(get_decided_evidence_event_ids(&queue), vec!["evt-1".to_string()]);
}
