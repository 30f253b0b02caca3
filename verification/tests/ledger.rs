use sha2::{Digest, Sha256};
use veridion::evidence::{
    compute_nexus_seal, compute_payload_hash, count_sealed_chain_roots, create_event,
    duplicate_event, find_event, get_latest_hash, get_next_sequence, verify_chain_integrity,
    verify_events, CreateEventParams, EvidenceEvent, Ledger,
};
use veridion::payload::{canonical_payload, Payload, PayloadField, PayloadValue};
use veridion::text::{bytes_to_hex, u64_to_dec};

const SALT: &str = "VERIDION_PROFESSIONAL_COMPLIANCE_SEAL_2024";
const NOW: u64 = 1_700_000_000_000;

fn sha256_hex(input: &str) -> String {
    let digest = Sha256::digest(input.as_bytes());
    digest.iter().map(|b| format!("{:02x}", b)).collect()
}

fn simple_payload(key: &str, value: &str) -> Payload {
    Payload {
        fields: vec![PayloadField {
            key: key.to_string(),
            value: PayloadValue::Text(value.to_string()),
        }],
    }
}

fn params(chain: &str, payload: Payload) -> CreateEventParams {
    CreateEventParams {
        event_type: "DATA_TRANSFER".to_string(),
        severity: "L1".to_string(),
        source_system: chain.to_string(),
        regulatory_tags: vec!["GDPR".to_string()],
        articles: vec![],
        payload,
        correlation_id: None,
        causation_id: None,
        source_ip: None,
        source_user_agent: None,
    }
}

#[test]
fn decimal_rendering() {
    assert_eq!(u64_to_dec(0), "0");
    assert_eq!(u64_to_dec(7), "7");
    assert_eq!(u64_to_dec(204), "204");
    assert_eq!(u64_to_dec(u64::MAX), "18446744073709551615");
}

#[test]
fn hex_rendering() {
    assert_eq!(bytes_to_hex(&vec![]), "");
    assert_eq!(bytes_to_hex(&vec![0xab, 0x01, 0xff]), "ab01ff");
}

#[test]
fn canonical_form_is_deterministic_and_tagged() {
    let p1 = simple_payload("a", "b");
    let p2 = simple_payload("a", "b");
    assert_eq!(canonical_payload(&p1), canonical_payload(&p2));
    assert_eq!(canonical_payload(&p1), "{1:a=s1:b;}");
    let listy = Payload {
        fields: vec![
            PayloadField { key: "n".to_string(), value: PayloadValue::Null },
            PayloadField { key: "f".to_string(), value: PayloadValue::Flag(true) },
            PayloadField { key: "k".to_string(), value: PayloadValue::Num(204) },
            PayloadField {
                key: "l".to_string(),
                value: PayloadValue::Items(vec!["x".to_string(), "yz".to_string()]),
            },
        ],
    };
    assert_eq!(canonical_payload(&listy), "{1:n=n;1:f=bt;1:k=u204;1:l=l2:s1:x;s2:yz;;}");
}

#[test]
fn payload_hash_is_sha256_of_canonical_form() {
    let p = simple_payload("user", "u1");
    let expected = sha256_hex(&canonical_payload(&p));
    let got = compute_payload_hash(&p);
    assert_eq!(got, expected);
    assert_eq!(got.len(), 64);
    assert_ne!(got, canonical_payload(&p));
}

#[test]
fn nexus_seal_formula() {
    assert_eq!(compute_nexus_seal("a", "b", "s"), sha256_hex("abs"));
    let empty_prev = compute_nexus_seal("ph", "", SALT);
    assert_eq!(empty_prev, sha256_hex(&format!("ph{}", SALT)));
}

#[test]
fn append_links_and_numbers_the_chain() {
    let mut ledger = Ledger::new(SALT.to_string());
    let e1 = create_event(&mut ledger, params("X", simple_payload("k", "one")), NOW).unwrap();
    let e2 = create_event(&mut ledger, params("X", simple_payload("k", "two")), NOW + 1).unwrap();
    assert_eq!(e1.sequence_number, 1);
    assert_eq!(e2.sequence_number, 2);
    assert_eq!(e1.previous_hash, "");
    assert_eq!(e2.previous_hash, e1.payload_hash);
    assert_eq!(e1.verification_status, "VERIFIED");
    assert_eq!(
        e1.nexus_seal.as_deref().unwrap(),
        &compute_nexus_seal(&e1.payload_hash, "", SALT)
    );
    assert_eq!(e1.event_id.len(), 36);
    assert_eq!(get_next_sequence(&ledger, "X"), 3);
    assert_eq!(get_latest_hash(&ledger, "X").as_deref(), Some(e2.payload_hash.as_str()));
    assert_eq!(get_next_sequence(&ledger, "Y"), 1);
    assert_eq!(get_latest_hash(&ledger, "Y"), None);
}

#[test]
fn chains_are_independent() {
    let mut ledger = Ledger::new(SALT.to_string());
    create_event(&mut ledger, params("A", simple_payload("k", "1")), NOW).unwrap();
    let b1 = create_event(&mut ledger, params("B", simple_payload("k", "2")), NOW).unwrap();
    assert_eq!(b1.sequence_number, 1);
    assert_eq!(b1.previous_hash, "");
    assert_eq!(count_sealed_chain_roots(&ledger), 2);
}

#[test]
fn verify_passes_on_ledger_chains() {
    let mut ledger = Ledger::new(SALT.to_string());
    for i in 0..3u64 {
        create_event(&mut ledger, params("X", simple_payload("k", &i.to_string())), NOW + i)
            .unwrap();
    }
    let (ok, msg) = verify_chain_integrity(&ledger, "X");
    assert!(ok);
    assert_eq!(msg, "Chain verified: 3 events");
    let (ok_empty, msg_empty) = verify_chain_integrity(&ledger, "nothing-here");
    assert!(ok_empty);
    assert_eq!(msg_empty, "No events to verify");
}

fn three_rows() -> (Vec<EvidenceEvent>, Ledger) {
    let mut ledger = Ledger::new(SALT.to_string());
    let mut rows = Vec::new();
    for i in 0..3u64 {
        let ev =
            create_event(&mut ledger, params("X", simple_payload("k", &i.to_string())), NOW + i)
                .unwrap();
        rows.push(ev);
    }
    (rows, ledger)
}

#[test]
fn tampered_payload_is_detected() {
    let (mut rows, _ledger) = three_rows();
    rows[1].payload = simple_payload("k", "tampered");
    let (ok, msg) = verify_events(&rows, SALT);
    assert!(!ok);
    assert_eq!(msg, format!("Event {} payload hash mismatch", rows[1].event_id));
}

#[test]
fn tampered_seal_is_detected() {
    let (mut rows, _ledger) = three_rows();
    rows[2].nexus_seal = Some("deadbeef".to_string());
    let (ok, msg) = verify_events(&rows, SALT);
    assert!(!ok);
    assert_eq!(msg, format!("Event {} nexus seal mismatch", rows[2].event_id));
}

#[test]
fn broken_link_is_detected() {
    let (rows, _ledger) = three_rows();
    // Rebuild row 2 with a consistent payload hash and seal but a wrong link.
    let mut forged = duplicate_event(&rows[2]);
    forged.previous_hash = "0".repeat(64);
    forged.payload_hash = compute_payload_hash(&forged.payload);
    forged.nexus_seal = Some(compute_nexus_seal(&forged.payload_hash, &forged.previous_hash, SALT));
    let fixed = vec![duplicate_event(&rows[0]), duplicate_event(&rows[1]), forged];
    let (ok, msg) = verify_events(&fixed, SALT);
    assert!(!ok);
    assert_eq!(
        msg,
        format!("Event {} chain break: previous_hash does not match", fixed[2].event_id)
    );
}

#[test]
fn wrong_salt_fails_seal_checks() {
    let (rows, _ledger) = three_rows();
    let (ok, msg) = verify_events(&rows, "some-other-salt");
    assert!(!ok);
    assert_eq!(msg, format!("Event {} nexus seal mismatch", rows[0].event_id));
}

#[test]
fn listing_filters_and_caps() {
    let mut ledger = Ledger::new(SALT.to_string());
    let mut p1 = simple_payload("destination_country", "Germany");
    p1.fields.push(PayloadField {
        key: "note".to_string(),
        value: PayloadValue::Text("first shipment".to_string()),
    });
    let e1 = create_event(&mut ledger, params("X", p1), NOW).unwrap();
    let mut second = params("Y", simple_payload("destination_country", "China"));
    second.event_type = "DATA_TRANSFER_BLOCKED".to_string();
    second.severity = "L3".to_string();
    create_event(&mut ledger, second, NOW + 1).unwrap();

    // No filters: everything, capped by the limit.
    let (all, total) = veridion::evidence::list_events(&ledger, None, None, None, None, 10);
    assert_eq!((all.len(), total), (2, 2));
    let (capped, total) = veridion::evidence::list_events(&ledger, None, None, None, None, 1);
    assert_eq!((capped.len(), total), (1, 2));

    // Exact filters on severity and event type.
    let (by_sev, n) = veridion::evidence::list_events(&ledger, Some("L3"), None, None, None, 10);
    assert_eq!((by_sev.len(), n), (1, 1));
    assert_eq!(by_sev[0].severity, "L3");
    let (by_type, _) =
        veridion::evidence::list_events(&ledger, None, Some("DATA_TRANSFER"), None, None, 10);
    assert_eq!(by_type.len(), 1);
    assert_eq!(by_type[0].event_type, "DATA_TRANSFER");

    // Case-insensitive search over ids, type, and the serialized payload.
    let (by_id, _) =
        veridion::evidence::list_events(&ledger, None, None, Some(&e1.event_id), None, 10);
    assert_eq!(by_id.len(), 1);
    let (by_text, _) =
        veridion::evidence::list_events(&ledger, None, None, Some("FIRST SHIP"), None, 10);
    assert_eq!(by_text.len(), 1);
    assert_eq!(by_text[0].event_id, e1.event_id);
    let (none, n) =
        veridion::evidence::list_events(&ledger, None, None, Some("no such text"), None, 10);
    assert_eq!((none.len(), n), (0, 0));

    // Destination filter over the payload's destination country.
    let (to_china, _) =
        veridion::evidence::list_events(&ledger, None, None, None, Some("chin"), 10);
    assert_eq!(to_china.len(), 1);
    assert_eq!(to_china[0].severity, "L3");
}

#[test]
fn find_event_by_id() {
    let (rows, ledger) = three_rows();
    let found = find_event(&ledger, &rows[1].event_id).expect("event should be found");
    assert_eq!(found.sequence_number, 2);
    assert!(find_event(&ledger, "no-such-id").is_none());
}
