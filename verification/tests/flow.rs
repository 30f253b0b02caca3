use veridion::evidence::Ledger;
use veridion::payload::PayloadValue;
use veridion::review_queue::{OversightStatus, ReviewQueue};
use veridion::scc::{
    check_scc_exists, register_scc, revoke_scc, list_scc_registries, SccRegistry,
    SccRegistryRequest, SccStatus,
};
use veridion::shield::{evaluate, ingest_logs, Decision, TransferContext};

const NOW: u64 = 1_700_000_000_000;
const SALT: &str = "flow-salt";

fn ctx(code: Option<&str>, cats: Option<Vec<&str>>, partner: Option<&str>) -> TransferContext {
    TransferContext {
        destination_country_code: code.map(|s| s.to_string()),
        destination_country: None,
        data_categories: cats.map(|v| v.into_iter().map(|s| s.to_string()).collect()),
        partner_name: partner.map(|s| s.to_string()),
        source_ip: Some("10.0.0.1".to_string()),
        dest_ip: None,
        data_size: Some(1024),
        protocol: Some("https".to_string()),
        user_agent: None,
        request_path: None,
    }
}

fn world() -> (Ledger, ReviewQueue, SccRegistry) {
    (Ledger::new(SALT.to_string()), ReviewQueue::new(), SccRegistry::new())
}

fn shield_chain_len(ledger: &Ledger) -> usize {
    for k in 0..ledger.chain_count() {
        if ledger.chain(k).source_system == "sovereign-shield" {
            return ledger.chain(k).events.len();
        }
    }
    0
}

#[test]
fn s1_eu_transfer_allowed_and_sealed() {
    let (mut ledger, mut queue, registry) = world();
    let out = evaluate(&mut ledger, &mut queue, &registry, &ctx(Some("DE"), Some(vec!["email"]), None), NOW)
        .unwrap();
    assert_eq!(out.decision.decision, Decision::ALLOW);
    assert_eq!(out.decision.severity, "L1");
    assert_eq!(out.decision.event_type, "DATA_TRANSFER");
    assert_eq!(out.decision.country_status, "eu_eea");
    assert_eq!(out.review_id, None);
    assert_eq!(queue.count(), 0);
    assert_eq!(shield_chain_len(&ledger), 1);

    let chain = ledger.chain(0);
    let ev = &chain.events[0];
    assert_eq!(ev.event_id, out.evidence_id);
    assert_eq!(ev.event_type, "DATA_TRANSFER");
    assert_eq!(ev.severity, "L1");
    assert_eq!(ev.source_system, "sovereign-shield");
    match veridion::payload::find_value(&ev.payload, "decision") {
        Some(PayloadValue::Text(s)) => assert_eq!(s, "ALLOW"),
        other => panic!("unexpected decision value: {:?}", other),
    }
    match veridion::payload::find_value(&ev.payload, "destination_country") {
        Some(PayloadValue::Text(s)) => assert_eq!(s, "Germany"),
        other => panic!("unexpected destination: {:?}", other),
    }
}

#[test]
fn s2_blocked_jurisdiction_sealed_without_review() {
    let (mut ledger, mut queue, registry) = world();
    let out = evaluate(&mut ledger, &mut queue, &registry, &ctx(Some("CN"), Some(vec!["email"]), None), NOW)
        .unwrap();
    assert_eq!(out.decision.decision, Decision::BLOCK);
    assert_eq!(out.decision.event_type, "DATA_TRANSFER_BLOCKED");
    assert_eq!(out.decision.severity, "L3");
    assert_eq!(out.review_id, None);
    assert_eq!(shield_chain_len(&ledger), 1);
}

#[test]
fn s3_scc_review_then_registration_closes_the_loop() {
    let (mut ledger, mut queue, mut registry) = world();
    let transfer = ctx(Some("US"), Some(vec!["email"]), Some("Acme"));

    // No SCC on file: the transfer goes to review, referencing the event.
    let out = evaluate(&mut ledger, &mut queue, &registry, &transfer, NOW).unwrap();
    assert_eq!(out.decision.decision, Decision::REVIEW);
    let seal = out.review_id.clone().expect("a review should have been opened");
    assert_eq!(queue.count(), 1);
    assert_eq!(queue.get(0).record.evidence_event_id.as_deref(), Some(out.evidence_id.as_str()));
    assert_eq!(queue.get(0).oversight.status, OversightStatus::Pending);

    // Registering the SCC approves the pending review automatically.
    let req = SccRegistryRequest {
        partner_name: "Acme".to_string(),
        destination_country_code: "us".to_string(),
        expires_at: None,
        notes: None,
    };
    let id = register_scc(&mut registry, &mut queue, &mut ledger, &req, NOW + 10);
    assert_eq!(id.len(), 36);
    assert!(check_scc_exists(&registry, "Acme", "US", NOW + 10));

    let entry = queue.get(0);
    assert_eq!(entry.record.seal_id, seal);
    assert_eq!(entry.oversight.status, OversightStatus::Approved);
    assert_eq!(entry.oversight.reviewer_id.as_deref(), Some("scc-registration"));
    assert_eq!(entry.oversight.comments.as_deref(), Some("SCC registered for this destination"));

    // The approval was mirrored as a HUMAN_OVERSIGHT_APPROVED event.
    let mut mirrored = 0;
    for k in 0..ledger.chain_count() {
        let chain = ledger.chain(k);
        if chain.source_system == "human-oversight" {
            assert_eq!(chain.events.len(), 1);
            assert_eq!(chain.events[0].event_type, "HUMAN_OVERSIGHT_APPROVED");
            assert_eq!(chain.events[0].severity, "L2");
            assert_eq!(chain.events[0].correlation_id, seal);
            mirrored += 1;
        }
    }
    assert_eq!(mirrored, 1);

    // The same transfer is now allowed outright.
    let again = evaluate(&mut ledger, &mut queue, &registry, &transfer, NOW + 20).unwrap();
    assert_eq!(again.decision.decision, Decision::ALLOW);
    assert_eq!(again.decision.reason, "Transfer to United States — valid SCC in place for Acme");
    assert_eq!(again.review_id, None);
}

#[test]
fn scc_expiry_and_revocation() {
    let (mut ledger, mut queue, mut registry) = world();
    let expired = SccRegistryRequest {
        partner_name: "Acme".to_string(),
        destination_country_code: "US".to_string(),
        expires_at: Some(NOW - 1),
        notes: None,
    };
    register_scc(&mut registry, &mut queue, &mut ledger, &expired, NOW);
    assert!(!check_scc_exists(&registry, "Acme", "US", NOW));

    let live = SccRegistryRequest {
        partner_name: "Acme".to_string(),
        destination_country_code: "US".to_string(),
        expires_at: Some(NOW + 1_000),
        notes: Some("annual clause".to_string()),
    };
    let id = register_scc(&mut registry, &mut queue, &mut ledger, &live, NOW);
    assert!(check_scc_exists(&registry, "Acme", "US", NOW));
    assert!(!check_scc_exists(&registry, "Other", "US", NOW));
    assert!(!check_scc_exists(&registry, "Acme", "BR", NOW));

    // Revoking is a conditional update; a second attempt finds nothing.
    assert!(revoke_scc(&mut registry, &id));
    assert!(!check_scc_exists(&registry, "Acme", "US", NOW));
    assert!(!revoke_scc(&mut registry, &id));
    assert!(!revoke_scc(&mut registry, "no-such-id"));

    let listed = list_scc_registries(&registry);
    assert_eq!(listed.len(), 2);
    // Newest first: the live (now revoked) clause was registered last.
    assert_eq!(listed[0].id, id);
    assert_eq!(listed[0].status, SccStatus::Revoked);
    assert_eq!(listed[0].destination_country_code, "US");
    assert_eq!(listed[0].registered_by.as_deref(), Some("admin"));
    assert_eq!(listed[1].status, SccStatus::Active);
    assert_eq!(listed[1].expires_at, Some(NOW - 1));
}

#[test]
fn every_ledger_chain_verifies_after_the_full_flow() {
    let (mut ledger, mut queue, mut registry) = world();
    let transfer = ctx(Some("US"), Some(vec!["email"]), Some("Acme"));
    evaluate(&mut ledger, &mut queue, &registry, &transfer, NOW).unwrap();
    let req = SccRegistryRequest {
        partner_name: "Acme".to_string(),
        destination_country_code: "US".to_string(),
        expires_at: None,
        notes: None,
    };
    register_scc(&mut registry, &mut queue, &mut ledger, &req, NOW + 1);
    for k in 0..ledger.chain_count() {
        let name = ledger.chain(k).source_system.clone();
        let (ok, msg) = veridion::evidence::verify_chain_integrity(&ledger, &name);
        assert!(ok, "chain {} failed: {}", name, msg);
    }
}

#[test]
fn missing_code_event_records_the_free_form_destination() {
    let (mut ledger, mut queue, registry) = world();
    let mut transfer = ctx(None, Some(vec!["email"]), None);
    transfer.destination_country = Some("Atlantis".to_string());
    let out = evaluate(&mut ledger, &mut queue, &registry, &transfer, NOW).unwrap();
    assert_eq!(out.decision.decision, Decision::REVIEW);
    let ev = &ledger.chain(0).events[0];
    match veridion::payload::find_value(&ev.payload, "destination_country") {
        Some(PayloadValue::Text(s)) => assert_eq!(s, "Atlantis"),
        other => panic!("unexpected destination: {:?}", other),
    }
    match veridion::payload::find_value(&ev.payload, "destination_country_code") {
        Some(PayloadValue::Text(s)) => assert_eq!(s, ""),
        other => panic!("unexpected code: {:?}", other),
    }
}

#[test]
fn ingest_processes_each_entry_and_opens_reviews() {
    let (mut ledger, mut queue, _registry) = world();
    let entries = vec![
        ctx(Some("DE"), Some(vec!["email"]), None),
        ctx(Some("US"), Some(vec!["email"]), Some("Acme")),
        ctx(None, Some(vec!["email"]), None),
    ];
    let processed = ingest_logs(&mut ledger, &mut queue, &entries, NOW);
    assert_eq!(processed, 3);
    assert_eq!(shield_chain_len(&ledger), 3);
    // The two review decisions each opened a review.
    assert_eq!(queue.count(), 2);

    let chain = ledger.chain(0);
    assert_eq!(chain.events[0].event_type, "DATA_TRANSFER");
    assert_eq!(chain.events[1].event_type, "DATA_TRANSFER_REVIEW");
    assert_eq!(chain.events[2].event_type, "DATA_TRANSFER_REVIEW");
    assert_eq!(chain.events[1].sequence_number, 2);
    assert_eq!(chain.events[2].previous_hash, chain.events[1].payload_hash);
}
