use veridion::jurisdiction::{all_country_classifications, classify_country, country_name};
use veridion::shield::{evaluate_transfer, Decision, TransferContext};

fn ctx(code: Option<&str>, cats: Option<Vec<&str>>, partner: Option<&str>) -> TransferContext {
    TransferContext {
        destination_country_code: code.map(|s| s.to_string()),
        destination_country: None,
        data_categories: cats.map(|v| v.into_iter().map(|s| s.to_string()).collect()),
        partner_name: partner.map(|s| s.to_string()),
        source_ip: None,
        dest_ip: None,
        data_size: None,
        protocol: None,
        user_agent: None,
        request_path: None,
    }
}

#[test]
fn classify_known_codes() {
    assert_eq!(classify_country("DE"), "eu_eea");
    assert_eq!(classify_country("de"), "eu_eea");
    assert_eq!(classify_country("GB"), "adequate_protection");
    assert_eq!(classify_country("us"), "scc_required");
    assert_eq!(classify_country("CN"), "blocked");
    assert_eq!(classify_country("NO"), "eu_eea");
    assert_eq!(classify_country("CH"), "adequate_protection");
}

#[test]
fn classify_rejects_everything_else() {
    assert_eq!(classify_country(""), "unknown");
    assert_eq!(classify_country("XX"), "unknown");
    assert_eq!(classify_country("USA"), "unknown");
    assert_eq!(classify_country("ü"), "unknown");
    assert_eq!(classify_country("üs"), "unknown");
}

#[test]
fn classifier_total_on_two_letter_inputs() {
    let labels = [
        "eu_eea",
        "adequate_protection",
        "scc_required",
        "blocked",
        "unknown",
    ];
    for a in b'a'..=b'z' {
        for b in b'A'..=b'Z' {
            let code = format!("{}{}", a as char, b as char);
            let got = classify_country(&code);
            assert!(labels.contains(&got), "no class for {}: {}", code, got);
        }
    }
}

#[test]
fn country_names() {
    assert_eq!(country_name("us"), "United States");
    assert_eq!(country_name("DE"), "Germany");
    assert_eq!(country_name("kp"), "North Korea");
    assert_eq!(country_name("xq"), "XQ");
    assert_eq!(country_name("zzz"), "ZZZ");
}

#[test]
fn country_table_is_consistent() {
    let table = all_country_classifications();
    assert_eq!(table.len(), 57);
    for info in &table {
        assert_eq!(info.name, country_name(&info.code));
        assert_eq!(info.status, classify_country(&info.code));
        assert_ne!(info.status, "unknown");
    }
}

#[test]
fn eu_transfer_allowed() {
    let d = evaluate_transfer(&ctx(Some("DE"), Some(vec!["email"]), None));
    assert_eq!(d.decision, Decision::ALLOW);
    assert_eq!(d.severity, "L1");
    assert_eq!(d.event_type, "DATA_TRANSFER");
    assert_eq!(d.country_status, "eu_eea");
    assert_eq!(d.reason, "Germany is EU/EEA — no transfer restrictions");
    assert!(d.articles.is_empty());
}

#[test]
fn blocked_jurisdiction() {
    let d = evaluate_transfer(&ctx(Some("CN"), Some(vec!["email"]), None));
    assert_eq!(d.decision, Decision::BLOCK);
    assert_eq!(d.severity, "L3");
    assert_eq!(d.event_type, "DATA_TRANSFER_BLOCKED");
    assert_eq!(d.country_status, "blocked");
    assert_eq!(d.articles, vec!["GDPR Art. 44", "GDPR Art. 46"]);
}

#[test]
fn missing_country_goes_to_review() {
    for c in [None, Some("")] {
        let d = evaluate_transfer(&ctx(c, Some(vec!["email"]), None));
        assert_eq!(d.decision, Decision::REVIEW);
        assert_eq!(d.severity, "L2");
        assert_eq!(d.event_type, "DATA_TRANSFER_REVIEW");
        assert_eq!(d.country_status, "unknown");
        assert_eq!(d.reason, "Missing destination country — cannot evaluate transfer");
    }
}

#[test]
fn absent_categories_differ_from_empty() {
    // Absent: unknown whether personal data is involved, so review.
    let absent = evaluate_transfer(&ctx(Some("US"), None, None));
    assert_eq!(absent.decision, Decision::REVIEW);
    assert_eq!(absent.country_status, "scc_required");
    // Empty list: confirmed no personal data, so allow.
    let empty = evaluate_transfer(&ctx(Some("US"), Some(vec![]), None));
    assert_eq!(empty.decision, Decision::ALLOW);
    assert_eq!(empty.severity, "L1");
    assert_eq!(empty.reason, "Transfer to United States — no personal data involved");
}

#[test]
fn scc_required_without_registry_reviews() {
    let d = evaluate_transfer(&ctx(Some("US"), Some(vec!["email"]), Some("Acme")));
    assert_eq!(d.decision, Decision::REVIEW);
    assert_eq!(
        d.reason,
        "United States requires SCC — human review needed to verify safeguards"
    );
    assert_eq!(d.articles, vec!["GDPR Art. 46"]);
}

#[test]
fn unknown_jurisdiction_with_personal_data_reviews() {
    let d = evaluate_transfer(&ctx(Some("XQ"), Some(vec!["email"]), None));
    assert_eq!(d.decision, Decision::REVIEW);
    assert_eq!(d.country_status, "unknown");
    assert_eq!(d.reason, "XQ — unknown jurisdiction, requires human review");
    assert_eq!(d.articles, vec!["GDPR Art. 44"]);
}
