//! The transfer decision engine: a pure decision table over the transfer
//! context and, when a registry is at hand, the SCC lookup. Every row of the
//! table is pinned down: decision, severity, event type, articles, country
//! status and the human-readable reason.
use vstd::prelude::*;

use crate::evidence::{create_event, CreateEventParams, Ledger, LedgerError};
use crate::jurisdiction::{class_label, classify_code, classify_country, country_name, spec_classify, spec_country_name, CountryClass};
use crate::payload::{payload_model, Payload, PayloadValue, ValueModel};
use crate::review_queue::{
    create_review, fresh_entry, has_evidence_ref, lemma_evidence_ref_monotone,
    seq_has_evidence_ref, ReviewQueue,
};
use crate::scc::{check_scc_exists, spec_scc_active, SccRegistry};
use crate::text::{
    clone_opt_string, clone_string, clone_vec_string, lower_seq, seq_views, to_lower,
    upper_seq, vec_str0, vec_str1, vec_str2,
};

verus! {

use vstd::string::StrSliceExecFns;
use vstd::string::StringExecFns;

/// The verdict on one transfer attempt.
#[derive(Clone, Copy, PartialEq, Eq, Structural, Debug)]
#[allow(non_camel_case_types)]
pub enum Decision {
    ALLOW,
    BLOCK,
    REVIEW,
}

impl Decision {
    /// The wire label of the decision.
    pub fn label(&self) -> (r: &'static str)
        ensures
            r@ == decision_label(*self),
    {
        match self {
            Decision::ALLOW => "ALLOW",
            Decision::BLOCK => "BLOCK",
            Decision::REVIEW => "REVIEW",
        }
    }
}

pub open spec fn decision_label(d: Decision) -> Seq<char> {
    match d {
        Decision::ALLOW => "ALLOW"@,
        Decision::BLOCK => "BLOCK"@,
        Decision::REVIEW => "REVIEW"@,
    }
}

/// What is known about one transfer attempt. `data_categories` absent means
/// "unknown whether personal data is involved"; an empty list means
/// "confirmed no personal data" — the two are deliberately distinct.
#[derive(Debug)]
pub struct TransferContext {
    pub destination_country_code: Option<String>,
    pub destination_country: Option<String>,
    pub data_categories: Option<Vec<String>>,
    pub partner_name: Option<String>,
    pub source_ip: Option<String>,
    pub dest_ip: Option<String>,
    pub data_size: Option<u64>,
    pub protocol: Option<String>,
    pub user_agent: Option<String>,
    pub request_path: Option<String>,
}

/// The decision together with everything the evidence event records of it.
#[derive(Debug)]
pub struct TransferDecision {
    pub decision: Decision,
    pub reason: String,
    pub severity: String,
    pub articles: Vec<String>,
    pub event_type: String,
    pub country_status: String,
}

// ---- the decision table, as specification ----

pub open spec fn code_of(ctx: TransferContext) -> Seq<char> {
    match ctx.destination_country_code {
        Option::Some(c) => c@,
        Option::None => Seq::<char>::empty(),
    }
}

pub open spec fn has_code(ctx: TransferContext) -> bool {
    code_of(ctx).len() > 0
}

pub open spec fn cats_known(ctx: TransferContext) -> bool {
    ctx.data_categories is Some
}

/// "Personal data present" means a non-empty category list.
pub open spec fn personal_data(ctx: TransferContext) -> bool {
    match ctx.data_categories {
        Option::Some(cats) => cats@.len() > 0,
        Option::None => false,
    }
}

pub open spec fn partner_of(ctx: TransferContext) -> Seq<char> {
    match ctx.partner_name {
        Option::Some(p) => p@,
        Option::None => Seq::<char>::empty(),
    }
}

pub open spec fn has_partner(ctx: TransferContext) -> bool {
    partner_of(ctx).len() > 0
}

pub open spec fn class_of(ctx: TransferContext) -> CountryClass {
    spec_classify(code_of(ctx))
}

/// The decision when no SCC registry is reachable: an scc_required country
/// carrying personal data falls to REVIEW, which is also the fail-safe
/// outcome when a registry lookup cannot be made.
pub open spec fn spec_decision(ctx: TransferContext) -> Decision {
    if !has_code(ctx) {
        Decision::REVIEW
    } else if !cats_known(ctx) {
        Decision::REVIEW
    } else {
        match class_of(ctx) {
            CountryClass::EuEea => Decision::ALLOW,
            CountryClass::Adequate => Decision::ALLOW,
            CountryClass::Blocked => Decision::BLOCK,
            CountryClass::SccRequired => if !personal_data(ctx) {
                Decision::ALLOW
            } else {
                Decision::REVIEW
            },
            CountryClass::Unknown => if !personal_data(ctx) {
                Decision::ALLOW
            } else {
                Decision::REVIEW
            },
        }
    }
}

/// The decision with the SCC registry consulted: scc_required with personal
/// data asks for the partner's clause; everything else is as without it.
pub open spec fn spec_decision_scc(ctx: TransferContext, scc_active: bool) -> Decision {
    if !has_code(ctx) || !cats_known(ctx) {
        spec_decision(ctx)
    } else if class_of(ctx) == CountryClass::SccRequired && personal_data(ctx) {
        if !has_partner(ctx) {
            Decision::REVIEW
        } else if scc_active {
            Decision::ALLOW
        } else {
            Decision::REVIEW
        }
    } else {
        spec_decision(ctx)
    }
}

/// Severity follows the decision: routine L1, review L2, blocked L3.
pub open spec fn severity_label(d: Decision) -> Seq<char> {
    match d {
        Decision::ALLOW => "L1"@,
        Decision::BLOCK => "L3"@,
        Decision::REVIEW => "L2"@,
    }
}

pub open spec fn event_type_label(d: Decision) -> Seq<char> {
    match d {
        Decision::ALLOW => "DATA_TRANSFER"@,
        Decision::BLOCK => "DATA_TRANSFER_BLOCKED"@,
        Decision::REVIEW => "DATA_TRANSFER_REVIEW"@,
    }
}

pub open spec fn spec_country_status(ctx: TransferContext) -> Seq<char> {
    if !has_code(ctx) {
        "unknown"@
    } else {
        class_label(class_of(ctx))
    }
}

pub open spec fn name_of(ctx: TransferContext) -> Seq<char> {
    spec_country_name(code_of(ctx))
}

pub open spec fn spec_reason(ctx: TransferContext) -> Seq<char> {
    if !has_code(ctx) {
        "Missing destination country — cannot evaluate transfer"@
    } else if !cats_known(ctx) {
        "Missing data categories — cannot determine if personal data is involved"@
    } else {
        match class_of(ctx) {
            CountryClass::EuEea => name_of(ctx) + " is EU/EEA — no transfer restrictions"@,
            CountryClass::Adequate => name_of(ctx) + " has EU adequacy decision"@,
            CountryClass::Blocked => name_of(ctx)
                + " is blocked — no legal transfer mechanism available"@,
            CountryClass::SccRequired => if !personal_data(ctx) {
                "Transfer to "@ + name_of(ctx) + " — no personal data involved"@
            } else {
                name_of(ctx) + " requires SCC — human review needed to verify safeguards"@
            },
            CountryClass::Unknown => if !personal_data(ctx) {
                "Transfer to "@ + name_of(ctx) + " — no personal data involved"@
            } else {
                name_of(ctx) + " — unknown jurisdiction, requires human review"@
            },
        }
    }
}

pub open spec fn spec_reason_scc(ctx: TransferContext, scc_active: bool) -> Seq<char> {
    if !has_code(ctx) || !cats_known(ctx) {
        spec_reason(ctx)
    } else if class_of(ctx) == CountryClass::SccRequired && personal_data(ctx) {
        if !has_partner(ctx) {
            name_of(ctx) + " requires SCC — partner name required to verify SCC"@
        } else if scc_active {
            "Transfer to "@ + name_of(ctx) + " — valid SCC in place for "@ + partner_of(ctx)
        } else {
            name_of(ctx) + " requires SCC — no active SCC found for "@ + partner_of(ctx)
        }
    } else {
        spec_reason(ctx)
    }
}

pub open spec fn spec_articles(ctx: TransferContext) -> Seq<Seq<char>> {
    if !has_code(ctx) || !cats_known(ctx) {
        seq!["GDPR Art. 44"@]
    } else {
        match class_of(ctx) {
            CountryClass::EuEea => Seq::<Seq<char>>::empty(),
            CountryClass::Adequate => seq!["GDPR Art. 45"@],
            CountryClass::Blocked => seq!["GDPR Art. 44"@, "GDPR Art. 46"@],
            CountryClass::SccRequired => if !personal_data(ctx) {
                Seq::<Seq<char>>::empty()
            } else {
                seq!["GDPR Art. 46"@]
            },
            CountryClass::Unknown => if !personal_data(ctx) {
                Seq::<Seq<char>>::empty()
            } else {
                seq!["GDPR Art. 44"@]
            },
        }
    }
}

pub open spec fn spec_articles_scc(ctx: TransferContext, scc_active: bool) -> Seq<Seq<char>> {
    spec_articles(ctx)
}

/// Everything evaluate_transfer promises of its result, in one place.
pub open spec fn decision_matches(ctx: TransferContext, d: TransferDecision) -> bool {
    &&& d.decision == spec_decision(ctx)
    &&& d.severity@ == severity_label(d.decision)
    &&& d.event_type@ == event_type_label(d.decision)
    &&& d.country_status@ == spec_country_status(ctx)
    &&& d.reason@ == spec_reason(ctx)
    &&& seq_views(d.articles@) == spec_articles(ctx)
}

pub open spec fn decision_matches_scc(
    ctx: TransferContext,
    scc_active: bool,
    d: TransferDecision,
) -> bool {
    &&& d.decision == spec_decision_scc(ctx, scc_active)
    &&& d.severity@ == severity_label(d.decision)
    &&& d.event_type@ == event_type_label(d.decision)
    &&& d.country_status@ == spec_country_status(ctx)
    &&& d.reason@ == spec_reason_scc(ctx, scc_active)
    &&& seq_views(d.articles@) == spec_articles_scc(ctx, scc_active)
}

// ---- the engine ----

/// Evaluates a transfer without a registry at hand (the batch ingestion
/// path): scc_required destinations carrying personal data go to review.
pub fn evaluate_transfer(ctx: &TransferContext) -> (d: TransferDecision)
    ensures
        decision_matches(*ctx, d),
{
    let code: String = match &ctx.destination_country_code {
        Option::Some(c) => {
            if c.as_str().is_empty() {
                return missing_country_decision();
            }
            clone_string(c)
        },
        Option::None => {
            return missing_country_decision();
        },
    };
    let has_personal_data: bool = match &ctx.data_categories {
        Option::Some(cats) => cats.len() > 0,
        Option::None => {
            return missing_categories_decision(code.as_str());
        },
    };
    let name = country_name(code.as_str());
    match classify_code(code.as_str()) {
        CountryClass::EuEea => TransferDecision {
            decision: Decision::ALLOW,
            reason: name.concat(" is EU/EEA — no transfer restrictions"),
            severity: String::from_str("L1"),
            articles: vec_str0(),
            event_type: String::from_str("DATA_TRANSFER"),
            country_status: String::from_str("eu_eea"),
        },
        CountryClass::Adequate => TransferDecision {
            decision: Decision::ALLOW,
            reason: name.concat(" has EU adequacy decision"),
            severity: String::from_str("L1"),
            articles: vec_str1("GDPR Art. 45"),
            event_type: String::from_str("DATA_TRANSFER"),
            country_status: String::from_str("adequate_protection"),
        },
        CountryClass::Blocked => TransferDecision {
            decision: Decision::BLOCK,
            reason: name.concat(" is blocked — no legal transfer mechanism available"),
            severity: String::from_str("L3"),
            articles: vec_str2("GDPR Art. 44", "GDPR Art. 46"),
            event_type: String::from_str("DATA_TRANSFER_BLOCKED"),
            country_status: String::from_str("blocked"),
        },
        CountryClass::SccRequired => {
            if !has_personal_data {
                no_personal_data_decision(name, "scc_required")
            } else {
                TransferDecision {
                    decision: Decision::REVIEW,
                    reason: name.concat(
                        " requires SCC — human review needed to verify safeguards",
                    ),
                    severity: String::from_str("L2"),
                    articles: vec_str1("GDPR Art. 46"),
                    event_type: String::from_str("DATA_TRANSFER_REVIEW"),
                    country_status: String::from_str("scc_required"),
                }
            }
        },
        CountryClass::Unknown => {
            if !has_personal_data {
                no_personal_data_decision(name, "unknown")
            } else {
                TransferDecision {
                    decision: Decision::REVIEW,
                    reason: name.concat(" — unknown jurisdiction, requires human review"),
                    severity: String::from_str("L2"),
                    articles: vec_str1("GDPR Art. 44"),
                    event_type: String::from_str("DATA_TRANSFER_REVIEW"),
                    country_status: String::from_str("unknown"),
                }
            }
        },
    }
}

fn missing_country_decision() -> (d: TransferDecision)
    ensures
        d.decision == Decision::REVIEW,
        d.reason@ == "Missing destination country — cannot evaluate transfer"@,
        d.severity@ == "L2"@,
        seq_views(d.articles@) == seq!["GDPR Art. 44"@],
        d.event_type@ == "DATA_TRANSFER_REVIEW"@,
        d.country_status@ == "unknown"@,
{
    TransferDecision {
        decision: Decision::REVIEW,
        reason: String::from_str("Missing destination country — cannot evaluate transfer"),
        severity: String::from_str("L2"),
        articles: vec_str1("GDPR Art. 44"),
        event_type: String::from_str("DATA_TRANSFER_REVIEW"),
        country_status: String::from_str("unknown"),
    }
}

fn missing_categories_decision(code: &str) -> (d: TransferDecision)
    ensures
        d.decision == Decision::REVIEW,
        d.reason@ == "Missing data categories — cannot determine if personal data is involved"@,
        d.severity@ == "L2"@,
        seq_views(d.articles@) == seq!["GDPR Art. 44"@],
        d.event_type@ == "DATA_TRANSFER_REVIEW"@,
        d.country_status@ == class_label(spec_classify(code@)),
{
    TransferDecision {
        decision: Decision::REVIEW,
        reason: String::from_str(
            "Missing data categories — cannot determine if personal data is involved",
        ),
        severity: String::from_str("L2"),
        articles: vec_str1("GDPR Art. 44"),
        event_type: String::from_str("DATA_TRANSFER_REVIEW"),
        country_status: String::from_str(classify_country(code)),
    }
}

fn no_personal_data_decision(name: String, status: &str) -> (d: TransferDecision)
    ensures
        d.decision == Decision::ALLOW,
        d.reason@ == "Transfer to "@ + name@ + " — no personal data involved"@,
        d.severity@ == "L1"@,
        seq_views(d.articles@) == Seq::<Seq<char>>::empty(),
        d.event_type@ == "DATA_TRANSFER"@,
        d.country_status@ == status@,
{
    TransferDecision {
        decision: Decision::ALLOW,
        reason: String::from_str("Transfer to ").concat(name.as_str()).concat(
            " — no personal data involved",
        ),
        severity: String::from_str("L1"),
        articles: vec_str0(),
        event_type: String::from_str("DATA_TRANSFER"),
        country_status: String::from_str(status),
    }
}

/// Evaluates a transfer with the SCC registry consulted for scc_required
/// destinations carrying personal data. The registry lookup cannot fail
/// here; a caller that cannot reach a registry uses `evaluate_transfer`,
/// whose scc_required row is the same fail-safe REVIEW.
pub fn evaluate_transfer_with_registry(
    reg: &SccRegistry,
    ctx: &TransferContext,
    now: u64,
) -> (d: TransferDecision)
    ensures
        decision_matches_scc(
            *ctx,
            spec_scc_active(*reg, partner_of(*ctx), upper_seq(code_of(*ctx)), now),
            d,
        ),
{
    let code: String = match &ctx.destination_country_code {
        Option::Some(c) => {
            if c.as_str().is_empty() {
                return missing_country_decision();
            }
            clone_string(c)
        },
        Option::None => {
            return missing_country_decision();
        },
    };
    let has_personal_data: bool = match &ctx.data_categories {
        Option::Some(cats) => cats.len() > 0,
        Option::None => {
            return missing_categories_decision(code.as_str());
        },
    };
    let is_scc_required = matches!(classify_code(code.as_str()), CountryClass::SccRequired);
    if is_scc_required && has_personal_data {
        let name = country_name(code.as_str());
        let partner: String = match &ctx.partner_name {
            Option::Some(p) => clone_string(p),
            Option::None => String::new(),
        };
        if partner.as_str().is_empty() {
            return TransferDecision {
                decision: Decision::REVIEW,
                reason: name.concat(" requires SCC — partner name required to verify SCC"),
                severity: String::from_str("L2"),
                articles: vec_str1("GDPR Art. 46"),
                event_type: String::from_str("DATA_TRANSFER_REVIEW"),
                country_status: String::from_str("scc_required"),
            };
        }
        if check_scc_exists(reg, partner.as_str(), code.as_str(), now) {
            TransferDecision {
                decision: Decision::ALLOW,
                reason: String::from_str("Transfer to ").concat(name.as_str()).concat(
                    " — valid SCC in place for ",
                ).concat(partner.as_str()),
                severity: String::from_str("L1"),
                articles: vec_str1("GDPR Art. 46"),
                event_type: String::from_str("DATA_TRANSFER"),
                country_status: String::from_str("scc_required"),
            }
        } else {
            TransferDecision {
                decision: Decision::REVIEW,
                reason: name.concat(" requires SCC — no active SCC found for ").concat(
                    partner.as_str(),
                ),
                severity: String::from_str("L2"),
                articles: vec_str1("GDPR Art. 46"),
                event_type: String::from_str("DATA_TRANSFER_REVIEW"),
                country_status: String::from_str("scc_required"),
            }
        }
    } else {
        evaluate_transfer(ctx)
    }
}

/// SCC closure, on the decision side: once an active clause covers the
/// partner and country, an scc_required transfer of personal data with that
/// partner named is allowed.
pub proof fn lemma_scc_closure_allows(ctx: TransferContext, scc_active: bool)
    requires
        has_code(ctx),
        cats_known(ctx),
        personal_data(ctx),
        has_partner(ctx),
        class_of(ctx) == CountryClass::SccRequired,
        scc_active,
    ensures
        spec_decision_scc(ctx, scc_active) == Decision::ALLOW,
{
}

// ---- sealing a decision into the ledger, and opening its review ----

pub open spec fn opt_text(o: Option<String>) -> ValueModel {
    match o {
        Option::Some(s) => ValueModel::Text(s@),
        Option::None => ValueModel::Null,
    }
}

pub open spec fn opt_num(o: Option<u64>) -> ValueModel {
    match o {
        Option::Some(n) => ValueModel::Num(n),
        Option::None => ValueModel::Null,
    }
}

pub open spec fn opt_items(o: Option<Vec<String>>) -> ValueModel {
    match o {
        Option::Some(v) => ValueModel::Items(seq_views(v@)),
        Option::None => ValueModel::Null,
    }
}

/// The display name the event records: the country's name when a code was
/// given, else the free-form destination, else "Unknown".
pub open spec fn dest_name_of(ctx: TransferContext) -> Seq<char> {
    if has_code(ctx) {
        spec_country_name(code_of(ctx))
    } else {
        match ctx.destination_country {
            Option::Some(n) => n@,
            Option::None => "Unknown"@,
        }
    }
}

/// What the payload of a sealed transfer event holds: the full context and
/// the decision taken on it.
pub open spec fn spec_shield_payload(
    ctx: TransferContext,
    dec: Decision,
    status: Seq<char>,
    reason: Seq<char>,
) -> Seq<(Seq<char>, ValueModel)> {
    seq![
        ("destination_country"@, ValueModel::Text(dest_name_of(ctx))),
        ("destination_country_code"@, ValueModel::Text(code_of(ctx))),
        ("country_status"@, ValueModel::Text(status)),
        ("decision"@, ValueModel::Text(decision_label(dec))),
        ("reason"@, ValueModel::Text(reason)),
        ("data_categories"@, opt_items(ctx.data_categories)),
        ("data_size"@, opt_num(ctx.data_size)),
        ("source_ip"@, opt_text(ctx.source_ip)),
        ("dest_ip"@, opt_text(ctx.dest_ip)),
        ("protocol"@, opt_text(ctx.protocol)),
        ("user_agent"@, opt_text(ctx.user_agent)),
        ("request_path"@, opt_text(ctx.request_path)),
        ("partner_name"@, opt_text(ctx.partner_name)),
    ]
}

/// The payload of the review opened for a transfer sent to human review.
pub open spec fn spec_review_context(ctx: TransferContext, reason: Seq<char>) -> Seq<
    (Seq<char>, ValueModel),
> {
    seq![
        ("destination"@, ValueModel::Text(dest_name_of(ctx))),
        ("destination_country_code"@, ValueModel::Text(code_of(ctx))),
        ("data_categories"@, opt_items(ctx.data_categories)),
        ("reason"@, ValueModel::Text(reason)),
    ]
}

fn opt_text_value(o: &Option<String>) -> (v: PayloadValue)
    ensures
        crate::payload::value_model(v) == opt_text(*o),
{
    match o {
        Option::Some(s) => PayloadValue::Text(clone_string(s)),
        Option::None => PayloadValue::Null,
    }
}

fn opt_num_value(o: &Option<u64>) -> (v: PayloadValue)
    ensures
        crate::payload::value_model(v) == opt_num(*o),
{
    match o {
        Option::Some(n) => PayloadValue::Num(*n),
        Option::None => PayloadValue::Null,
    }
}

fn opt_items_value(o: &Option<Vec<String>>) -> (v: PayloadValue)
    ensures
        crate::payload::value_model(v) == opt_items(*o),
{
    match o {
        Option::Some(items) => {
            let copied = clone_vec_string(items);
            proof {
                assert(copied@.map_values(|s: String| s@) =~= seq_views(items@));
            }
            PayloadValue::Items(copied)
        },
        Option::None => PayloadValue::Null,
    }
}

fn dest_name(ctx: &TransferContext) -> (r: String)
    ensures
        r@ == dest_name_of(*ctx),
{
    let has: bool = match &ctx.destination_country_code {
        Option::Some(c) => !c.as_str().is_empty(),
        Option::None => false,
    };
    if has {
        match &ctx.destination_country_code {
            Option::Some(c) => country_name(c.as_str()),
            Option::None => String::from_str("Unknown"),
        }
    } else {
        match &ctx.destination_country {
            Option::Some(n) => clone_string(n),
            Option::None => String::from_str("Unknown"),
        }
    }
}

fn raw_code(ctx: &TransferContext) -> (r: String)
    ensures
        r@ == code_of(*ctx),
{
    match &ctx.destination_country_code {
        Option::Some(c) => clone_string(c),
        Option::None => String::new(),
    }
}

fn build_shield_payload(ctx: &TransferContext, d: &TransferDecision) -> (p: Payload)
    ensures
        payload_model(p) == spec_shield_payload(*ctx, d.decision, d.country_status@, d.reason@),
{
    let mut p = Payload::empty();
    p.push_field("destination_country", PayloadValue::Text(dest_name(ctx)));
    p.push_field("destination_country_code", PayloadValue::Text(raw_code(ctx)));
    p.push_field("country_status", PayloadValue::Text(clone_string(&d.country_status)));
    p.push_field("decision", PayloadValue::Text(String::from_str(d.decision.label())));
    p.push_field("reason", PayloadValue::Text(clone_string(&d.reason)));
    p.push_field("data_categories", opt_items_value(&ctx.data_categories));
    p.push_field("data_size", opt_num_value(&ctx.data_size));
    p.push_field("source_ip", opt_text_value(&ctx.source_ip));
    p.push_field("dest_ip", opt_text_value(&ctx.dest_ip));
    p.push_field("protocol", opt_text_value(&ctx.protocol));
    p.push_field("user_agent", opt_text_value(&ctx.user_agent));
    p.push_field("request_path", opt_text_value(&ctx.request_path));
    p.push_field("partner_name", opt_text_value(&ctx.partner_name));
    proof {
        assert(payload_model(p) =~= spec_shield_payload(
            *ctx,
            d.decision,
            d.country_status@,
            d.reason@,
        ));
    }
    p
}

fn build_review_context(ctx: &TransferContext, d: &TransferDecision) -> (p: Payload)
    ensures
        payload_model(p) == spec_review_context(*ctx, d.reason@),
{
    let mut p = Payload::empty();
    p.push_field("destination", PayloadValue::Text(dest_name(ctx)));
    p.push_field("destination_country_code", PayloadValue::Text(raw_code(ctx)));
    p.push_field("data_categories", opt_items_value(&ctx.data_categories));
    p.push_field("reason", PayloadValue::Text(clone_string(&d.reason)));
    proof {
        assert(payload_model(p) =~= spec_review_context(*ctx, d.reason@));
    }
    p
}

/// What the evidence event sealed for one evaluation holds.
pub open spec fn shield_event_ok(
    e: crate::evidence::EvidenceEvent,
    ctx: TransferContext,
    dec: Decision,
    status: Seq<char>,
    reason: Seq<char>,
    articles: Seq<Seq<char>>,
    now: u64,
) -> bool {
    &&& e.event_type@ == event_type_label(dec)
    &&& e.severity@ == severity_label(dec)
    &&& e.source_system@ == "sovereign-shield"@
    &&& seq_views(e.regulatory_tags@) == seq!["GDPR"@]
    &&& seq_views(e.articles@) == articles
    &&& payload_model(e.payload) == spec_shield_payload(ctx, dec, status, reason)
    &&& e.occurred_at == now
    &&& e.recorded_at == now
}

/// The outcome of one evaluation: the decision, the sealed event's id, and
/// the seal id of the review it opened, if it opened one.
#[derive(Debug)]
pub struct EvaluationOutcome {
    pub decision: TransferDecision,
    pub evidence_id: String,
    pub review_id: Option<String>,
}

/// Evaluates one transfer against the registry, seals exactly one evidence
/// event for the decision, and, when the decision is REVIEW, opens a review
/// referencing the just-sealed event id.
#[verifier::rlimit(60)]
pub fn evaluate(
    ledger: &mut Ledger,
    queue: &mut ReviewQueue,
    registry: &SccRegistry,
    ctx: &TransferContext,
    now: u64,
) -> (r: Result<EvaluationOutcome, LedgerError>)
    requires
        old(ledger).wf(),
        old(queue).wf(),
    ensures
        final(ledger).wf(),
        final(queue).wf(),
        final(ledger).seal_salt == old(ledger).seal_salt,
        r is Err ==> old(ledger).chain_events("sovereign-shield"@).len() == usize::MAX
            && *final(ledger) == *old(ledger) && final(queue).entries@ == old(queue).entries@,
        r matches Result::Ok(out) ==> ({
            let active = spec_scc_active(
                *registry,
                partner_of(*ctx),
                upper_seq(code_of(*ctx)),
                now,
            );
            let before = old(ledger).chain_events("sovereign-shield"@);
            let after = final(ledger).chain_events("sovereign-shield"@);
            &&& decision_matches_scc(*ctx, active, out.decision)
            &&& after.len() == before.len() + 1
            &&& after.take(before.len() as int) == before
            &&& shield_event_ok(
                after.last(),
                *ctx,
                out.decision.decision,
                out.decision.country_status@,
                out.decision.reason@,
                seq_views(out.decision.articles@),
                now,
            )
            &&& out.evidence_id == after.last().event_id
            &&& (out.decision.decision != Decision::REVIEW ==> final(queue).entries@ == old(
                queue,
            ).entries@ && out.review_id is None)
            &&& (out.decision.decision == Decision::REVIEW ==> out.review_id is Some && (
            if has_evidence_ref(*old(queue), after.last().event_id@) {
                final(queue).entries@ == old(queue).entries@
            } else {
                &&& final(queue).entries@.len() == old(queue).entries@.len() + 1
                &&& final(queue).entries@.take(old(queue).entries@.len() as int) == old(
                    queue,
                ).entries@
                &&& fresh_entry(
                    final(queue).entries@.last(),
                    "sovereign-shield"@,
                    "transfer_data_to_"@ + lower_seq(code_of(*ctx)),
                    spec_review_context(*ctx, out.decision.reason@),
                    after.last().event_id@,
                    now,
                )
                &&& out.review_id == Option::Some(
                    final(queue).entries@.last().record.seal_id,
                )
            }))
        }),
{
    let decision = evaluate_transfer_with_registry(registry, ctx, now);
    let payload = build_shield_payload(ctx, &decision);
    let params = CreateEventParams {
        event_type: clone_string(&decision.event_type),
        severity: clone_string(&decision.severity),
        source_system: String::from_str("sovereign-shield"),
        regulatory_tags: vec_str1("GDPR"),
        articles: clone_vec_string(&decision.articles),
        payload,
        correlation_id: Option::None,
        causation_id: Option::None,
        source_ip: clone_opt_string(&ctx.source_ip),
        source_user_agent: clone_opt_string(&ctx.user_agent),
    };
    let event = match create_event(ledger, params, now) {
        Result::Ok(ev) => ev,
        Result::Err(e) => {
            return Result::Err(e);
        },
    };

    let review_id: Option<String> = if matches!(decision.decision, Decision::REVIEW) {
        let code = raw_code(ctx);
        let action = String::from_str("transfer_data_to_").concat(
            to_lower(code.as_str()).as_str(),
        );
        let context = build_review_context(ctx, &decision);
        let seal = create_review(
            queue,
            "sovereign-shield",
            action.as_str(),
            "sovereign-shield",
            &context,
            event.event_id.as_str(),
            now,
        );
        Option::Some(seal)
    } else {
        Option::None
    };

    let evidence_id = clone_string(&event.event_id);
    Result::Ok(EvaluationOutcome { decision, evidence_id, review_id })
}

/// Batch ingestion: each entry is evaluated with the pure engine (no
/// registry lookup), sealed into the ledger, and sent to review when the
/// decision asks for one. Entries are processed in order; the count of
/// successfully sealed entries is returned.
pub fn ingest_logs(
    ledger: &mut Ledger,
    queue: &mut ReviewQueue,
    entries: &Vec<TransferContext>,
    now: u64,
) -> (processed: u64)
    requires
        old(ledger).wf(),
        old(queue).wf(),
    ensures
        final(ledger).wf(),
        final(queue).wf(),
        final(ledger).seal_salt == old(ledger).seal_salt,
        processed <= entries@.len(),
        old(queue).entries@.is_prefix_of(final(queue).entries@),
        old(ledger).chain_events("sovereign-shield"@).len() + entries@.len() < usize::MAX
            ==> ({
            let before = old(ledger).chain_events("sovereign-shield"@);
            let after = final(ledger).chain_events("sovereign-shield"@);
            &&& processed == entries@.len()
            &&& after.len() == before.len() + entries@.len()
            &&& after.take(before.len() as int) == before
            &&& forall|i: int|
                0 <= i < entries@.len() ==> shield_event_ok(
                    after[before.len() + i],
                    #[trigger] entries@[i],
                    spec_decision(entries@[i]),
                    spec_country_status(entries@[i]),
                    spec_reason(entries@[i]),
                    spec_articles(entries@[i]),
                    now,
                )
            &&& forall|i: int|
                0 <= i < entries@.len() && spec_decision(#[trigger] entries@[i])
                    == Decision::REVIEW ==> has_evidence_ref(
                    *final(queue),
                    after[before.len() + i].event_id@,
                )
        }),
{
    let ghost before = old(ledger).chain_events("sovereign-shield"@);
    let ghost hyp = before.len() + entries@.len() < usize::MAX;
    let n = entries.len();
    let mut processed: u64 = 0;
    let mut i: usize = 0;
    while i < n
        invariant
            old(ledger).wf(),
            old(queue).wf(),
            ledger.wf(),
            queue.wf(),
            ledger.seal_salt == old(ledger).seal_salt,
            n == entries@.len(),
            i <= n,
            processed <= i,
            before == old(ledger).chain_events("sovereign-shield"@),
            hyp == (before.len() + entries@.len() < usize::MAX),
            old(queue).entries@.is_prefix_of(queue.entries@),
            ledger.chain_events("sovereign-shield"@).len() == before.len() + processed,
            ledger.chain_events("sovereign-shield"@).take(before.len() as int) == before,
            hyp ==> processed == i,
            processed < i ==> ledger.chain_events("sovereign-shield"@).len() == usize::MAX,
            forall|t: int|
                0 <= t < processed ==> shield_event_ok(
                    ledger.chain_events("sovereign-shield"@)[before.len() + t],
                    #[trigger] entries@[t],
                    spec_decision(entries@[t]),
                    spec_country_status(entries@[t]),
                    spec_reason(entries@[t]),
                    spec_articles(entries@[t]),
                    now,
                ),
            forall|t: int|
                0 <= t < processed && spec_decision(#[trigger] entries@[t]) == Decision::REVIEW
                    ==> seq_has_evidence_ref(
                    queue.entries@,
                    ledger.chain_events("sovereign-shield"@)[before.len() + t].event_id@,
                ),
        decreases n - i,
    {
        let ctx = &entries[i];
        let decision = evaluate_transfer(ctx);
        let payload = build_shield_payload(ctx, &decision);
        let params = CreateEventParams {
            event_type: clone_string(&decision.event_type),
            severity: clone_string(&decision.severity),
            source_system: String::from_str("sovereign-shield"),
            regulatory_tags: vec_str1("GDPR"),
            articles: clone_vec_string(&decision.articles),
            payload,
            correlation_id: Option::None,
            causation_id: Option::None,
            source_ip: clone_opt_string(&ctx.source_ip),
            source_user_agent: clone_opt_string(&ctx.user_agent),
        };
        let ghost chain_pre = ledger.chain_events("sovereign-shield"@);
        let ghost queue_pre = queue.entries@;
        match create_event(ledger, params, now) {
            Result::Ok(event) => {
                if matches!(decision.decision, Decision::REVIEW) {
                    let code = raw_code(ctx);
                    let action = String::from_str("transfer_data_to_").concat(
                        to_lower(code.as_str()).as_str(),
                    );
                    let context = build_review_context(ctx, &decision);
                    let seal = create_review(
                        queue,
                        "sovereign-shield",
                        action.as_str(),
                        "sovereign-shield",
                        &context,
                        event.event_id.as_str(),
                        now,
                    );
                    proof {
                        let eid = event.event_id@;
                        if seq_has_evidence_ref(queue_pre, eid) {
                            assert(queue.entries@ == queue_pre);
                        } else {
                            assert(crate::review_queue::evidence_ref(queue.entries@.last())
                                == Option::Some(eid));
                            assert(seq_has_evidence_ref(queue.entries@, eid));
                        }
                    }
                }
                processed = processed + 1;
                proof {
                    let chain_post = ledger.chain_events("sovereign-shield"@);
                    assert(chain_post.take(chain_pre.len() as int) == chain_pre);
                    assert(chain_post.take(before.len() as int) =~= chain_pre.take(
                        before.len() as int,
                    ));
                    assert(shield_event_ok(
                        chain_post.last(),
                        entries@[i as int],
                        spec_decision(entries@[i as int]),
                        spec_country_status(entries@[i as int]),
                        spec_reason(entries@[i as int]),
                        spec_articles(entries@[i as int]),
                        now,
                    ));
                    assert forall|t: int| 0 <= t < processed implies shield_event_ok(
                        chain_post[before.len() + t],
                        #[trigger] entries@[t],
                        spec_decision(entries@[t]),
                        spec_country_status(entries@[t]),
                        spec_reason(entries@[t]),
                        spec_articles(entries@[t]),
                        now,
                    ) by {
                        if t < processed - 1 {
                            assert(chain_post[before.len() + t] == chain_pre[before.len()
                                + t]);
                        } else {
                            assert(chain_pre.len() < usize::MAX);
                            assert(t == i as int);
                            assert(before.len() + t == chain_post.len() - 1);
                            assert(chain_post[before.len() + t] == chain_post.last());
                        }
                    }
                    assert(queue_pre.is_prefix_of(queue.entries@)) by {
                        assert(queue.entries@.take(queue_pre.len() as int) =~= queue_pre);
                    }
                    assert forall|t: int|
                        0 <= t < processed && spec_decision(#[trigger] entries@[t])
                            == Decision::REVIEW implies seq_has_evidence_ref(
                        queue.entries@,
                        chain_post[before.len() + t].event_id@,
                    ) by {
                        if t < processed - 1 {
                            assert(chain_post[before.len() + t] == chain_pre[before.len()
                                + t]);
                            lemma_evidence_ref_monotone(
                                queue_pre,
                                queue.entries@,
                                chain_pre[before.len() + t].event_id@,
                            );
                        } else {
                            assert(chain_post[before.len() + t] == chain_post.last());
                            assert(chain_post.last().event_id@ == event.event_id@);
                        }
                    }
                }
            },
            Result::Err(_) => {},
        }
        proof {
            if old(queue).entries@.is_prefix_of(queue_pre) {
                assert(queue.entries@.take(old(queue).entries@.len() as int) =~= queue_pre.take(
                    old(queue).entries@.len() as int,
                ));
            }
        }
        i = i + 1;
    }
    processed
}

} // verus!
