use veridion::crypto_shredder::{
    encrypt_payload, execute_erasure, is_shredded, master_key_bytes, run_erasure, shred_key,
    shredded_inventory, store_wrapped_key, ErasureError, ErasureRequest, KeyStore,
};
use veridion::evidence::Ledger;
use veridion::payload::PayloadValue;

const NOW: u64 = 1_700_000_000_000;
const SALT: &str = "erasure-salt";

fn master_key() -> Vec<u8> {
    master_key_bytes("veridion-dev-master-key-32bytes!!".as_bytes())
}

fn request(user: &str, confirmation: &str) -> ErasureRequest {
    ErasureRequest {
        request_id: "req-1".to_string(),
        user_id: user.to_string(),
        grounds: "Art. 17(1)(a)".to_string(),
        confirmation: confirmation.to_string(),
    }
}

#[test]
fn master_key_is_padded_and_truncated_to_32_bytes() {
    let short = master_key_bytes(b"abc");
    assert_eq!(short.len(), 32);
    assert_eq!(&short[..3], b"abc");
    assert!(short[3..].iter().all(|&b| b == 0));

    let exact: Vec<u8> = (0u8..32).collect();
    assert_eq!(master_key_bytes(&exact), exact);

    let long: Vec<u8> = (0u8..40).collect();
    let truncated = master_key_bytes(&long);
    assert_eq!(truncated.len(), 32);
    assert_eq!(&truncated[..], &long[..32]);
}

#[test]
fn encrypt_payload_produces_real_ciphertext() {
    let plain = "erasure record";
    let el = encrypt_payload(plain).unwrap();
    assert_eq!(el.nonce.len(), 12);
    assert_eq!(el.log_id.len(), 36);
    assert!(el.log_id.starts_with("log_"));
    // Ciphertext carries a 16-byte tag and never equals the plaintext.
    assert_eq!(el.ciphertext.len(), plain.len() + 16);
    assert_ne!(&el.ciphertext[..plain.len()], plain.as_bytes());
}

#[test]
fn shredding_overwrites_the_wrapped_key() {
    let mut keys = KeyStore::new();
    store_wrapped_key(&mut keys, "log_a", &vec![1, 2, 3, 4], NOW);
    assert!(!is_shredded(&keys, "log_a"));
    assert!(shred_key(&mut keys, "log_a", NOW + 1));
    assert!(is_shredded(&keys, "log_a"));
    let row = keys.get(0);
    assert_eq!(row.wrapped_dek, vec![0u8]);
    assert_eq!(row.shredded_at, Some(NOW + 1));
    // A second shred finds nothing left to destroy.
    assert!(!shred_key(&mut keys, "log_a", NOW + 2));
    assert!(!shred_key(&mut keys, "log_b", NOW));
    assert!(!is_shredded(&keys, "log_b"));
}

#[test]
fn erasure_stores_only_a_tombstone() {
    let mut keys = KeyStore::new();
    let out = execute_erasure(&mut keys, &master_key(), "u1", "req-1", "Art. 17", NOW).unwrap();
    assert_eq!(keys.count(), 1);
    let row = keys.get(0);
    assert_eq!(row.log_id, out.log_id);
    assert_eq!(row.wrapped_dek, vec![0u8]);
    assert_eq!(row.shredded_at, Some(NOW));
    assert_eq!(out.total_records, 11987);
    assert_eq!(out.total_size_mb_tenths, 1240);
    assert_eq!(out.items.len(), 3);
    assert_eq!(out.items[0].source, "Main Database");
    assert_eq!(out.items[0].records, 2341);
    assert_eq!(out.items[1].size_mb_tenths, 1123);
    assert_eq!(out.items[2].status, "SHREDDED");
}

#[test]
fn inventory_totals_add_up() {
    let items = shredded_inventory();
    let records: u64 = items.iter().map(|i| i.records).sum();
    let tenths: u64 = items.iter().map(|i| i.size_mb_tenths).sum();
    assert_eq!(records, 11987);
    assert_eq!(tenths, 1240);
    assert!(items.iter().all(|i| i.method == "Crypto-Shred (AES-256)"));
}

#[test]
fn confirmation_gate_requires_the_exact_phrase() {
    let mut keys = KeyStore::new();
    let mut ledger = Ledger::new(SALT.to_string());
    let key = master_key();
    for bad in ["", "erase u1", "ERASE u2", "ERASE  u1", "ERASE u1 ", "u1"] {
        let r = run_erasure(&mut keys, &mut ledger, &key, &request("u1", bad), NOW);
        assert_eq!(r.unwrap_err(), ErasureError::InvalidConfirmation);
    }
    assert_eq!(keys.count(), 0);
    assert_eq!(ledger.chain_count(), 0);
    assert!(run_erasure(&mut keys, &mut ledger, &key, &request("u1", "ERASE u1"), NOW).is_ok());
}

#[test]
fn erasure_seals_a_completion_event() {
    let mut keys = KeyStore::new();
    let mut ledger = Ledger::new(SALT.to_string());
    let key = master_key();
    let out = run_erasure(&mut keys, &mut ledger, &key, &request("u1", "ERASE u1"), NOW).unwrap();

    assert_eq!(ledger.chain_count(), 1);
    let chain = ledger.chain(0);
    assert_eq!(chain.source_system, "crypto-shredder");
    assert_eq!(chain.events.len(), 1);
    let ev = &chain.events[0];
    assert_eq!(ev.event_type, "GDPR_ERASURE_COMPLETED");
    assert_eq!(ev.severity, "L4");
    assert_eq!(ev.articles, vec!["GDPR Art. 17".to_string()]);
    assert_eq!(ev.correlation_id, "req-1");
    match veridion::payload::find_value(&ev.payload, "cryptoLogId") {
        Some(PayloadValue::Text(s)) => assert_eq!(s, &out.log_id),
        other => panic!("unexpected cryptoLogId: {:?}", other),
    }
    match veridion::payload::find_value(&ev.payload, "userId") {
        Some(PayloadValue::Text(s)) => assert_eq!(s, "u1"),
        other => panic!("unexpected userId: {:?}", other),
    }
    match veridion::payload::find_value(&ev.payload, "shreddedSources") {
        Some(PayloadValue::Items(items)) => assert_eq!(
            items,
            &vec![
                "Main Database".to_string(),
                "Analytics Store".to_string(),
                "Backup Archive".to_string()
            ]
        ),
        other => panic!("unexpected shreddedSources: {:?}", other),
    }
    // The log id is "log_" followed by 32 lowercase hex digits.
    assert!(out.log_id[4..].chars().all(|c| c.is_ascii_hexdigit() && !c.is_ascii_uppercase()));

    // Erasures are not deduplicated: a second one creates a fresh row.
    let out2 = run_erasure(&mut keys, &mut ledger, &key, &request("u1", "ERASE u1"), NOW + 1)
        .unwrap();
    assert_ne!(out.log_id, out2.log_id);
    assert_eq!(keys.count(), 2);
    assert_eq!(ledger.chain(0).events.len(), 2);
}
