//! The human-oversight review workflow: a pending/decided state machine
//! over sealed evidence events. Creation is idempotent on the evidence
//! event id; a decision is terminal and mirrored into the evidence ledger.
use vstd::prelude::*;

use crate::crypto::{sha256_hex_of, uuid_simple};
use crate::evidence::{
    compute_payload_hash, create_event, find_event, spec_find_event, CreateEventParams,
    EvidenceEvent, Ledger,
};
use crate::payload::{
    canon_payload, find_value, lookup_value, payload_model, Payload, PayloadValue, ValueModel,
};
use crate::text::{
    clone_opt_string, clone_string, is_upper_hex_digit, seq_views, to_upper, to_upper_char,
    upper_seq, vec_str1,
};

verus! {

use vstd::string::StrSliceExecFns;
use vstd::string::StringExecFns;

#[derive(Clone, Copy, PartialEq, Eq, Structural, Debug)]
pub enum OversightStatus {
    Pending,
    Approved,
    Rejected,
}

pub open spec fn status_label(s: OversightStatus) -> Seq<char> {
    match s {
        OversightStatus::Pending => "PENDING"@,
        OversightStatus::Approved => "APPROVED"@,
        OversightStatus::Rejected => "REJECTED"@,
    }
}

#[derive(Clone, Copy, PartialEq, Eq, Structural, Debug)]
pub enum ReviewError {
    InvalidDecision,
    NotFound,
    Conflict,
}

/// The review-queue row: what caused the review and who it concerns.
#[derive(Debug)]
pub struct ComplianceRecord {
    pub seal_id: String,
    pub agent_id: String,
    pub action_summary: String,
    pub tx_id: String,
    pub payload_hash: String,
    pub evidence_event_id: Option<String>,
    pub human_oversight_status: OversightStatus,
    pub created_at: u64,
}

/// The oversight row, 1:1 with its compliance record by seal id.
#[derive(Debug)]
pub struct HumanOversight {
    pub seal_id: String,
    pub status: OversightStatus,
    pub reviewer_id: Option<String>,
    pub decided_at: Option<u64>,
    pub comments: Option<String>,
    pub created_at: u64,
}

#[derive(Debug)]
pub struct ReviewEntry {
    pub record: ComplianceRecord,
    pub oversight: HumanOversight,
}

#[derive(Debug)]
pub struct ReviewQueue {
    pub entries: Vec<ReviewEntry>,
}

impl ReviewQueue {
    /// Records and oversight rows pair up 1:1, statuses mirror, and no two
    /// entries reference the same evidence event.
    pub open spec fn wf(self) -> bool {
        &&& forall|i: int|
            0 <= i < self.entries@.len() ==> (#[trigger] self.entries@[i]).record.seal_id@
                == self.entries@[i].oversight.seal_id@
        &&& forall|i: int|
            0 <= i < self.entries@.len() ==> (#[trigger] self.entries@[
                i
            ]).record.human_oversight_status == self.entries@[i].oversight.status
        &&& forall|i: int, j: int|
            0 <= i < j < self.entries@.len() && #[trigger] evidence_ref(self.entries@[i])
                is Some ==> evidence_ref(self.entries@[i]) != #[trigger] evidence_ref(
                self.entries@[j],
            )
    }

    pub fn new() -> (q: ReviewQueue)
        ensures
            q.wf(),
            q.entries@.len() == 0,
    {
        ReviewQueue { entries: Vec::new() }
    }

    pub fn count(&self) -> (n: usize)
        ensures
            n == self.entries@.len(),
    {
        self.entries.len()
    }

    pub fn get(&self, i: usize) -> (r: &ReviewEntry)
        requires
            i < self.entries@.len(),
        ensures
            *r == self.entries@[i as int],
    {
        &self.entries[i]
    }
}

/// The evidence event a review entry references, if any.
pub open spec fn evidence_ref(e: ReviewEntry) -> Option<Seq<char>> {
    match e.record.evidence_event_id {
        Option::Some(s) => Option::Some(s@),
        Option::None => Option::None,
    }
}

/// Well-formedness depends only on the entries.
proof fn lemma_wf_same_entries(a: ReviewQueue, b: ReviewQueue)
    requires
        a.wf(),
        a.entries@ == b.entries@,
    ensures
        b.wf(),
{
    assert forall|i: int|
        0 <= i < b.entries@.len() implies (#[trigger] b.entries@[i]).record.seal_id@
        == b.entries@[i].oversight.seal_id@ && b.entries@[i].record.human_oversight_status
        == b.entries@[i].oversight.status by {
        assert(b.entries@[i] == a.entries@[i]);
    }
    assert forall|i: int, j: int|
        0 <= i < j < b.entries@.len() && #[trigger] evidence_ref(b.entries@[i])
        is Some implies evidence_ref(b.entries@[i]) != #[trigger] evidence_ref(
        b.entries@[j],
    ) by {
        assert(b.entries@[i] == a.entries@[i]);
        assert(b.entries@[j] == a.entries@[j]);
    }
}

/// Some entry of the sequence references this evidence event.
pub open spec fn seq_has_evidence_ref(entries: Seq<ReviewEntry>, eid: Seq<char>) -> bool {
    exists|i: int|
        0 <= i < entries.len() && #[trigger] evidence_ref(entries[i]) == Option::Some(eid)
}

/// Some entry of the queue already references this evidence event.
pub open spec fn has_evidence_ref(q: ReviewQueue, eid: Seq<char>) -> bool {
    seq_has_evidence_ref(q.entries@, eid)
}

/// What the entry created for a new review looks like.
pub open spec fn fresh_entry(
    e: ReviewEntry,
    agent_id: Seq<char>,
    action: Seq<char>,
    context_model: Seq<(Seq<char>, ValueModel)>,
    eid: Seq<char>,
    now: u64,
) -> bool {
    &&& e.record.seal_id@ == e.oversight.seal_id@
    &&& e.record.seal_id@.len() == 21
    &&& e.record.seal_id@.take(5) == "SEAL-"@
    &&& forall|i: int| 5 <= i < 21 ==> is_upper_hex_digit(#[trigger] e.record.seal_id@[i])
    &&& e.record.tx_id@.len() == 15
    &&& e.record.tx_id@.take(3) == "TX-"@
    &&& forall|i: int| 3 <= i < 15 ==> is_upper_hex_digit(#[trigger] e.record.tx_id@[i])
    &&& e.record.agent_id@ == agent_id
    &&& e.record.action_summary@ == action
    &&& e.record.payload_hash@ == sha256_hex_of(canon_payload(context_model))
    &&& e.record.evidence_event_id matches Option::Some(x) && x@ == eid
    &&& e.record.human_oversight_status == OversightStatus::Pending
    &&& e.record.created_at == now
    &&& e.oversight.status == OversightStatus::Pending
    &&& e.oversight.reviewer_id is None
    &&& e.oversight.decided_at is None
    &&& e.oversight.comments is None
    &&& e.oversight.created_at == now
}

/// "SEAL-" followed by sixteen uppercase hex digits, drawn from a fresh
/// identifier's lowercase hex form.
fn make_seal_id() -> (r: String)
    ensures
        r@.len() == 21,
        r@.take(5) == "SEAL-"@,
        forall|i: int| 5 <= i < 21 ==> is_upper_hex_digit(#[trigger] r@[i]),
{
    proof {
        reveal_strlit("SEAL-");
    }
    let simple = uuid_simple();
    let mut r = String::from_str("SEAL-");
    let mut i: usize = 0;
    while i < 16
        invariant
            i <= 16,
            simple@.len() == 32,
            forall|j: int|
                0 <= j < 32 ==> crate::text::is_lower_hex_digit(#[trigger] simple@[j]),
            r@.len() == 5 + i,
            r@.take(5) == "SEAL-"@,
            forall|j: int| 5 <= j < 5 + i ==> is_upper_hex_digit(#[trigger] r@[j]),
        decreases 16 - i,
    {
        let ghost before = r@;
        let c = simple.as_str().get_char(i);
        r.push(to_upper_char(c));
        proof {
            assert(r@.take(5) =~= before.take(5));
            assert(is_upper_hex_digit(crate::text::upper_char(simple@[i as int])));
        }
        i = i + 1;
    }
    r
}

/// "TX-" followed by twelve uppercase hex digits.
fn make_tx_id() -> (r: String)
    ensures
        r@.len() == 15,
        r@.take(3) == "TX-"@,
        forall|i: int| 3 <= i < 15 ==> is_upper_hex_digit(#[trigger] r@[i]),
{
    proof {
        reveal_strlit("TX-");
    }
    let simple = uuid_simple();
    let mut r = String::from_str("TX-");
    let mut i: usize = 0;
    while i < 12
        invariant
            i <= 12,
            simple@.len() == 32,
            forall|j: int|
                0 <= j < 32 ==> crate::text::is_lower_hex_digit(#[trigger] simple@[j]),
            r@.len() == 3 + i,
            r@.take(3) == "TX-"@,
            forall|j: int| 3 <= j < 3 + i ==> is_upper_hex_digit(#[trigger] r@[j]),
        decreases 12 - i,
    {
        let ghost before = r@;
        let c = simple.as_str().get_char(i);
        r.push(to_upper_char(c));
        proof {
            assert(r@.take(3) =~= before.take(3));
            assert(is_upper_hex_digit(crate::text::upper_char(simple@[i as int])));
        }
        i = i + 1;
    }
    r
}

/// Opens a review for a sealed evidence event, writing the compliance
/// record and its oversight row together. Idempotent on the evidence event
/// id: if a record for it exists, its seal id is returned and nothing is
/// inserted, so two identical calls leave exactly one row. The module name
/// is accepted for API compatibility; listings report the fixed module.
pub fn create_review(
    queue: &mut ReviewQueue,
    agent_id: &str,
    action: &str,
    module: &str,
    context: &Payload,
    evidence_event_id: &str,
    now: u64,
) -> (seal: String)
    requires
        old(queue).wf(),
    ensures
        final(queue).wf(),
        has_evidence_ref(*old(queue), evidence_event_id@) ==> final(queue).entries@ == old(queue).entries@ && exists|i: int|
            {
                &&& 0 <= i < old(queue).entries@.len()
                &&& #[trigger] evidence_ref(old(queue).entries@[i]) == Option::Some(
                    evidence_event_id@,
                )
                &&& forall|j: int|
                    0 <= j < i ==> #[trigger] evidence_ref(old(queue).entries@[j])
                        != Option::Some(evidence_event_id@)
                &&& seal == old(queue).entries@[i].record.seal_id
            },
        !has_evidence_ref(*old(queue), evidence_event_id@) ==> ({
            &&& final(queue).entries@.len() == old(queue).entries@.len() + 1
            &&& final(queue).entries@.take(old(queue).entries@.len() as int) == old(queue).entries@
            &&& fresh_entry(
                final(queue).entries@.last(),
                agent_id@,
                action@,
                payload_model(*context),
                evidence_event_id@,
                now,
            )
            &&& seal == final(queue).entries@.last().record.seal_id
        }),
{
    let eid = String::from_str(evidence_event_id);
    let mut i: usize = 0;
    while i < queue.entries.len()
        invariant
            old(queue).wf(),
            i <= queue.entries@.len(),
            eid@ == evidence_event_id@,
            queue.entries@ == old(queue).entries@,
            forall|j: int|
                0 <= j < i ==> #[trigger] evidence_ref(queue.entries@[j]) != Option::Some(
                    evidence_event_id@,
                ),
        decreases queue.entries@.len() - i,
    {
        let found = match &queue.entries[i].record.evidence_event_id {
            Option::Some(e) => *e == eid,
            Option::None => false,
        };
        if found {
            proof {
                assert(evidence_ref(queue.entries@[i as int]) == Option::Some(
                    evidence_event_id@,
                ));
                assert(has_evidence_ref(*old(queue), evidence_event_id@));
                lemma_wf_same_entries(*old(queue), *queue);
            }
            return clone_string(&queue.entries[i].record.seal_id);
        }
        i = i + 1;
    }

    let seal_id = make_seal_id();
    let tx_id = make_tx_id();
    let payload_hash = compute_payload_hash(context);
    let entry = ReviewEntry {
        record: ComplianceRecord {
            seal_id: clone_string(&seal_id),
            agent_id: String::from_str(agent_id),
            action_summary: String::from_str(action),
            tx_id,
            payload_hash,
            evidence_event_id: Option::Some(eid),
            human_oversight_status: OversightStatus::Pending,
            created_at: now,
        },
        oversight: HumanOversight {
            seal_id: clone_string(&seal_id),
            status: OversightStatus::Pending,
            reviewer_id: Option::None,
            decided_at: Option::None,
            comments: Option::None,
            created_at: now,
        },
    };
    queue.entries.push(entry);
    proof {
        let n = old(queue).entries@.len() as int;
        assert(queue.entries@.take(n) =~= old(queue).entries@);
    }
    seal_id
}

/// How one entry reads after a decision: statuses moved to the target and
/// mirrored, with who decided, when, and the comments stamped; everything
/// else is kept.
pub open spec fn entry_decided(
    post: ReviewEntry,
    pre: ReviewEntry,
    target: OversightStatus,
    reviewer_id: Seq<char>,
    comments: Seq<char>,
    now: u64,
) -> bool {
    &&& post.record.seal_id == pre.record.seal_id
    &&& post.record.agent_id == pre.record.agent_id
    &&& post.record.action_summary == pre.record.action_summary
    &&& post.record.tx_id == pre.record.tx_id
    &&& post.record.payload_hash == pre.record.payload_hash
    &&& post.record.evidence_event_id == pre.record.evidence_event_id
    &&& post.record.human_oversight_status == target
    &&& post.record.created_at == pre.record.created_at
    &&& post.oversight.seal_id == pre.oversight.seal_id
    &&& post.oversight.status == target
    &&& post.oversight.reviewer_id matches Option::Some(r) && r@ == reviewer_id
    &&& post.oversight.decided_at == Option::Some(now)
    &&& post.oversight.comments matches Option::Some(c) && c@ == comments
    &&& post.oversight.created_at == pre.oversight.created_at
}

/// Applies a decision to the entry at a known position.
fn decide_entry_at(
    queue: &mut ReviewQueue,
    i: usize,
    target: OversightStatus,
    reviewer_id: &str,
    comments: &str,
    now: u64,
)
    requires
        old(queue).wf(),
        i < old(queue).entries@.len(),
        target != OversightStatus::Pending,
    ensures
        final(queue).wf(),
        final(queue).entries@.len() == old(queue).entries@.len(),
        forall|j: int|
            0 <= j < old(queue).entries@.len() && j != i ==> final(queue).entries@[j] == old(queue).entries@[j],
        entry_decided(
            final(queue).entries@[i as int],
            old(queue).entries@[i as int],
            target,
            reviewer_id@,
            comments@,
            now,
        ),
{
    let seal_copy = clone_string(&queue.entries[i].oversight.seal_id);
    let created = queue.entries[i].oversight.created_at;
    queue.entries[i].oversight = HumanOversight {
        seal_id: seal_copy,
        status: target,
        reviewer_id: Option::Some(String::from_str(reviewer_id)),
        decided_at: Option::Some(now),
        comments: Option::Some(String::from_str(comments)),
        created_at: created,
    };
    queue.entries[i].record.human_oversight_status = target;
    proof {
        let pre = old(queue).entries@;
        let post = queue.entries@;
        assert forall|j: int|
            0 <= j < post.len() implies (#[trigger] post[j]).record.seal_id@
            == post[j].oversight.seal_id@ && post[j].record.human_oversight_status
            == post[j].oversight.status by {
            if j != i {
                assert(post[j] == pre[j]);
            }
        }
        assert forall|p: int, q: int|
            0 <= p < q < post.len() && #[trigger] evidence_ref(post[p]) is Some implies
            evidence_ref(post[p]) != #[trigger] evidence_ref(post[q]) by {
            assert(evidence_ref(post[p]) == evidence_ref(pre[p]));
            assert(evidence_ref(post[q]) == evidence_ref(pre[q]));
        }
    }
}

pub open spec fn decision_target(d: Seq<char>) -> Option<OversightStatus> {
    if d == "ALLOW"@ || d == "APPROVE"@ {
        Option::Some(OversightStatus::Approved)
    } else if d == "BLOCK"@ || d == "REJECT"@ {
        Option::Some(OversightStatus::Rejected)
    } else {
        Option::None
    }
}

/// The first entry carrying this seal id, if any.
pub open spec fn has_seal(q: ReviewQueue, seal: Seq<char>) -> bool {
    exists|i: int|
        0 <= i < q.entries@.len() && (#[trigger] q.entries@[i]).oversight.seal_id@ == seal
}

fn parse_decision(decision: &str) -> (r: Option<OversightStatus>)
    ensures
        r == decision_target(decision@),
{
    let d = String::from_str(decision);
    if d == String::from_str("ALLOW") || d == String::from_str("APPROVE") {
        Option::Some(OversightStatus::Approved)
    } else if d == String::from_str("BLOCK") || d == String::from_str("REJECT") {
        Option::Some(OversightStatus::Rejected)
    } else {
        Option::None
    }
}

fn find_seal_index(queue: &ReviewQueue, seal_id: &str) -> (r: Option<usize>)
    ensures
        match r {
            Option::Some(i) => i < queue.entries@.len() && queue.entries@[
                i as int
            ].oversight.seal_id@ == seal_id@ && forall|j: int|
                0 <= j < i ==> (#[trigger] queue.entries@[j]).oversight.seal_id@ != seal_id@,
            Option::None => !has_seal(*queue, seal_id@),
        },
{
    let seal_string = String::from_str(seal_id);
    let mut i: usize = 0;
    while i < queue.entries.len()
        invariant
            i <= queue.entries@.len(),
            seal_string@ == seal_id@,
            forall|j: int|
                0 <= j < i ==> (#[trigger] queue.entries@[j]).oversight.seal_id@ != seal_id@,
        decreases queue.entries@.len() - i,
    {
        if queue.entries[i].oversight.seal_id == seal_string {
            return Option::Some(i);
        }
        i = i + 1;
    }
    Option::None
}

/// Decides a pending review. Only legal from PENDING: deciding an unknown
/// seal is NotFound, deciding a decided one is Conflict and mutates
/// nothing — a terminal status never changes again.
#[verifier::rlimit(60)]
pub fn decide_review(
    queue: &mut ReviewQueue,
    seal_id: &str,
    decision: &str,
    reviewer_id: &str,
    comments: &str,
    now: u64,
) -> (r: Result<OversightStatus, ReviewError>)
    requires
        old(queue).wf(),
    ensures
        final(queue).wf(),
        decision_target(decision@) is None ==> r == Result::<
            OversightStatus,
            ReviewError,
        >::Err(ReviewError::InvalidDecision) && final(queue).entries@ == old(queue).entries@,
        decision_target(decision@) is Some && !has_seal(*old(queue), seal_id@) ==> r
            == Result::<OversightStatus, ReviewError>::Err(ReviewError::NotFound) && final(queue).entries@ == old(queue).entries@,
        decision_target(decision@) is Some && has_seal(*old(queue), seal_id@)
            ==> exists|i: int|
            {
                &&& 0 <= i < old(queue).entries@.len()
                &&& (#[trigger] old(queue).entries@[i]).oversight.seal_id@ == seal_id@
                &&& forall|j: int|
                    0 <= j < i ==> (#[trigger] old(queue).entries@[j]).oversight.seal_id@
                        != seal_id@
                &&& if old(queue).entries@[i].oversight.status != OversightStatus::Pending {
                    r == Result::<OversightStatus, ReviewError>::Err(ReviewError::Conflict)
                        && final(queue).entries@ == old(queue).entries@
                } else {
                    &&& r == Result::<OversightStatus, ReviewError>::Ok(decision_target(decision@).unwrap())
                    &&& final(queue).entries@.len() == old(queue).entries@.len()
                    &&& forall|j: int|
                        0 <= j < old(queue).entries@.len() && j != i ==> final(queue).entries@[j] == old(queue).entries@[j]
                    &&& entry_decided(
                        final(queue).entries@[i],
                        old(queue).entries@[i],
                        decision_target(decision@).unwrap(),
                        reviewer_id@,
                        comments@,
                        now,
                    )
                }
            },
{
    let target = match parse_decision(decision) {
        Option::Some(t) => t,
        Option::None => {
            return Result::Err(ReviewError::InvalidDecision);
        },
    };
    match find_seal_index(queue, seal_id) {
        Option::Some(i) => {
            if !matches!(queue.entries[i].oversight.status, OversightStatus::Pending) {
                return Result::Err(ReviewError::Conflict);
            }
            decide_entry_at(queue, i, target, reviewer_id, comments, now);
            Result::Ok(target)
        },
        Option::None => Result::Err(ReviewError::NotFound),
    }
}

// ---- the evidence mirror of a decision ----

/// What the evidence event mirroring one decision records.
pub open spec fn oversight_event_ok(
    e: EvidenceEvent,
    target: OversightStatus,
    seal: Seq<char>,
    reviewer: Seq<char>,
    comments: Seq<char>,
    now: u64,
) -> bool {
    &&& e.event_type@ == "HUMAN_OVERSIGHT_"@ + status_label(target)
    &&& e.severity@ == "L2"@
    &&& e.source_system@ == "human-oversight"@
    &&& e.correlation_id@ == seal
    &&& seq_views(e.regulatory_tags@) == seq!["GDPR"@]
    &&& seq_views(e.articles@) == seq!["GDPR Art. 22"@]
    &&& payload_model(e.payload) == seq![
        ("seal_id"@, ValueModel::Text(seal)),
        ("decision"@, ValueModel::Text(status_label(target))),
        ("reviewer_id"@, ValueModel::Text(reviewer)),
        ("comments"@, ValueModel::Text(comments)),
    ]
    &&& e.occurred_at == now
    &&& e.recorded_at == now
}

/// Seals the mirror event for a decision into the "human-oversight" chain.
/// The mirror is best-effort observability: the decision itself stands even
/// if the chain cannot take another event.
fn append_oversight_event(
    ledger: &mut Ledger,
    seal_id: &str,
    target: OversightStatus,
    reviewer_id: &str,
    comments: &str,
    now: u64,
)
    requires
        old(ledger).wf(),
        target != OversightStatus::Pending,
    ensures
        final(ledger).wf(),
        final(ledger).seal_salt == old(ledger).seal_salt,
        old(ledger).chain_events("human-oversight"@).len() < usize::MAX ==> ({
            let before = old(ledger).chain_events("human-oversight"@);
            let after = final(ledger).chain_events("human-oversight"@);
            &&& after.len() == before.len() + 1
            &&& after.take(before.len() as int) == before
            &&& oversight_event_ok(after.last(), target, seal_id@, reviewer_id@, comments@, now)
        }),
        forall|k: int|
            0 <= k < old(ledger).chains@.len() && (#[trigger] old(ledger).chains@[k]).source_system@ != "human-oversight"@ ==> final(ledger).chains@[k]
                == old(ledger).chains@[k],
{
    let status_text: &'static str = match target {
        OversightStatus::Approved => "APPROVED",
        OversightStatus::Rejected => "REJECTED",
        OversightStatus::Pending => "PENDING",
    };
    let event_type = String::from_str("HUMAN_OVERSIGHT_").concat(status_text);
    let mut payload = Payload::empty();
    payload.push_field("seal_id", PayloadValue::Text(String::from_str(seal_id)));
    payload.push_field("decision", PayloadValue::Text(String::from_str(status_text)));
    payload.push_field("reviewer_id", PayloadValue::Text(String::from_str(reviewer_id)));
    payload.push_field("comments", PayloadValue::Text(String::from_str(comments)));
    proof {
        assert(payload_model(payload) =~= seq![
            ("seal_id"@, ValueModel::Text(seal_id@)),
            ("decision"@, ValueModel::Text(status_label(target))),
            ("reviewer_id"@, ValueModel::Text(reviewer_id@)),
            ("comments"@, ValueModel::Text(comments@)),
        ]);
    }
    let params = CreateEventParams {
        event_type,
        severity: String::from_str("L2"),
        source_system: String::from_str("human-oversight"),
        regulatory_tags: vec_str1("GDPR"),
        articles: vec_str1("GDPR Art. 22"),
        payload,
        correlation_id: Option::Some(String::from_str(seal_id)),
        causation_id: Option::None,
        source_ip: Option::None,
        source_user_agent: Option::None,
    };
    // Best-effort: if the chain cannot take the mirror event, the decision
    // it records still stands.
    let _mirror = create_event(ledger, params, now);
}

/// Decides a review and seals the decision into the evidence ledger. The
/// decision is committed first; the evidence mirror follows it.
pub fn decide_review_with_evidence(
    queue: &mut ReviewQueue,
    ledger: &mut Ledger,
    seal_id: &str,
    decision: &str,
    reviewer_id: &str,
    comments: &str,
    now: u64,
) -> (r: Result<OversightStatus, ReviewError>)
    requires
        old(queue).wf(),
        old(ledger).wf(),
    ensures
        final(queue).wf(),
        final(ledger).wf(),
        final(ledger).seal_salt == old(ledger).seal_salt,
        r is Err ==> *final(ledger) == *old(ledger),
        decision_target(decision@) is None ==> r == Result::<
            OversightStatus,
            ReviewError,
        >::Err(ReviewError::InvalidDecision) && final(queue).entries@ == old(queue).entries@,
        decision_target(decision@) is Some && !has_seal(*old(queue), seal_id@) ==> r
            == Result::<OversightStatus, ReviewError>::Err(ReviewError::NotFound) && final(queue).entries@ == old(queue).entries@,
        decision_target(decision@) is Some && has_seal(*old(queue), seal_id@)
            ==> exists|i: int|
            {
                &&& 0 <= i < old(queue).entries@.len()
                &&& (#[trigger] old(queue).entries@[i]).oversight.seal_id@ == seal_id@
                &&& forall|j: int|
                    0 <= j < i ==> (#[trigger] old(queue).entries@[j]).oversight.seal_id@
                        != seal_id@
                &&& if old(queue).entries@[i].oversight.status != OversightStatus::Pending {
                    r == Result::<OversightStatus, ReviewError>::Err(ReviewError::Conflict)
                        && final(queue).entries@ == old(queue).entries@
                } else {
                    &&& r == Result::<OversightStatus, ReviewError>::Ok(decision_target(decision@).unwrap())
                    &&& final(queue).entries@.len() == old(queue).entries@.len()
                    &&& forall|j: int|
                        0 <= j < old(queue).entries@.len() && j != i ==> final(queue).entries@[j] == old(queue).entries@[j]
                    &&& entry_decided(
                        final(queue).entries@[i],
                        old(queue).entries@[i],
                        decision_target(decision@).unwrap(),
                        reviewer_id@,
                        comments@,
                        now,
                    )
                }
            },
        r is Ok && old(ledger).chain_events("human-oversight"@).len() < usize::MAX ==> ({
            let before = old(ledger).chain_events("human-oversight"@);
            let after = final(ledger).chain_events("human-oversight"@);
            &&& after.len() == before.len() + 1
            &&& after.take(before.len() as int) == before
            &&& oversight_event_ok(
                after.last(),
                decision_target(decision@).unwrap(),
                seal_id@,
                reviewer_id@,
                comments@,
                now,
            )
        }),
{
    match decide_review(queue, seal_id, decision, reviewer_id, comments, now) {
        Result::Ok(target) => {
            append_oversight_event(ledger, seal_id, target, reviewer_id, comments, now);
            Result::Ok(target)
        },
        Result::Err(e) => Result::Err(e),
    }
}

// ---- SCC-triggered auto-approval ----

/// A pending review whose referenced evidence event records a transfer to
/// this destination country (compared case-insensitively).
pub open spec fn review_matches_scc(e: ReviewEntry, l: Ledger, cc: Seq<char>) -> bool {
    &&& e.oversight.status == OversightStatus::Pending
    &&& match evidence_ref(e) {
        Option::Some(eid) => match spec_find_event(l.chains@, eid) {
            Option::Some(ev) => match lookup_value(
                payload_model(ev.payload),
                "destination_country_code"@,
            ) {
                Option::Some(v) => v matches ValueModel::Text(s) && upper_seq(s) == upper_seq(
                    cc,
                ),
                Option::None => false,
            },
            Option::None => false,
        },
        Option::None => false,
    }
}

pub open spec fn count_scc_matches(entries: Seq<ReviewEntry>, l: Ledger, cc: Seq<char>) -> int
    decreases entries.len(),
{
    if entries.len() == 0 {
        0int
    } else {
        count_scc_matches(entries.drop_last(), l, cc) + if review_matches_scc(
            entries.last(),
            l,
            cc,
        ) {
            1int
        } else {
            0int
        }
    }
}

fn review_entry_matches(
    queue: &ReviewQueue,
    ledger: &Ledger,
    i: usize,
    cc_upper: &String,
    ghost_cc: Ghost<Seq<char>>,
) -> (r: bool)
    requires
        i < queue.entries@.len(),
        cc_upper@ == upper_seq(ghost_cc@),
    ensures
        r == review_matches_scc(queue.entries@[i as int], *ledger, ghost_cc@),
{
    let e = &queue.entries[i];
    if !matches!(e.oversight.status, OversightStatus::Pending) {
        return false;
    }
    match &e.record.evidence_event_id {
        Option::Some(eid) => match find_event(ledger, eid.as_str()) {
            Option::Some(ev) => match find_value(&ev.payload, "destination_country_code") {
                Option::Some(v) => match v {
                    PayloadValue::Text(s) => {
                        let s_upper = to_upper(s.as_str());
                        s_upper == *cc_upper
                    },
                    _ => false,
                },
                Option::None => false,
            },
            Option::None => false,
        },
        Option::None => false,
    }
}

/// After an SCC is registered for a destination country, every pending
/// review whose transfer targeted that country is approved, recorded as
/// decided by "scc-registration", and each approval is mirrored into the
/// ledger. Returns how many reviews were approved.
pub fn approve_pending_reviews_for_scc(
    queue: &mut ReviewQueue,
    ledger: &mut Ledger,
    destination_country_code: &str,
    now: u64,
) -> (approved: usize)
    requires
        old(queue).wf(),
        old(ledger).wf(),
    ensures
        final(queue).wf(),
        final(ledger).wf(),
        final(ledger).seal_salt == old(ledger).seal_salt,
        final(queue).entries@.len() == old(queue).entries@.len(),
        approved == count_scc_matches(
            old(queue).entries@,
            *old(ledger),
            destination_country_code@,
        ),
        old(ledger).chain_events("human-oversight"@).len() + approved < usize::MAX ==> final(ledger).chain_events("human-oversight"@).len() == old(ledger).chain_events(
            "human-oversight"@,
        ).len() + approved,
        forall|j: int|
            0 <= j < old(queue).entries@.len() && !review_matches_scc(
                #[trigger] old(queue).entries@[j],
                *old(ledger),
                destination_country_code@,
            ) ==> final(queue).entries@[j] == old(queue).entries@[j],
        forall|j: int|
            0 <= j < old(queue).entries@.len() && review_matches_scc(
                #[trigger] old(queue).entries@[j],
                *old(ledger),
                destination_country_code@,
            ) ==> entry_decided(
                final(queue).entries@[j],
                old(queue).entries@[j],
                OversightStatus::Approved,
                "scc-registration"@,
                "SCC registered for this destination"@,
                now,
            ),
{
    let ghost cc = destination_country_code@;
    let cc_upper = to_upper(destination_country_code);
    let n = queue.entries.len();
    let mut matched: Vec<usize> = Vec::new();
    let mut i: usize = 0;
    while i < n
        invariant
            old(queue).wf(),
            old(ledger).wf(),
            queue.entries@ == old(queue).entries@,
            *ledger == *old(ledger),
            n == queue.entries@.len(),
            i <= n,
            cc_upper@ == upper_seq(cc),
            forall|t: int|
                0 <= t < matched@.len() ==> #[trigger] matched@[t] < i && review_matches_scc(
                    old(queue).entries@[matched@[t] as int],
                    *old(ledger),
                    cc,
                ),
            forall|t1: int, t2: int|
                0 <= t1 < t2 < matched@.len() ==> #[trigger] matched@[t1] < #[trigger] matched@[t2],
            forall|j: int|
                0 <= j < i && review_matches_scc(
                    #[trigger] old(queue).entries@[j],
                    *old(ledger),
                    cc,
                ) ==> exists|t: int| 0 <= t < matched@.len() && #[trigger] matched@[t] == j,
            matched@.len() == count_scc_matches(old(queue).entries@.take(i as int), *old(ledger), cc),
        decreases n - i,
    {
        let hit = review_entry_matches(queue, ledger, i, &cc_upper, Ghost(cc));
        let ghost m_old = matched@;
        if hit {
            matched.push(i);
        }
        proof {
            assert(old(queue).entries@.take(i + 1 as int).drop_last() =~= old(
                queue,
            ).entries@.take(i as int));
            assert(old(queue).entries@.take(i + 1 as int).last() == old(queue).entries@[
                i as int
            ]);
            let m_new = matched@;
            assert forall|j: int|
                0 <= j < i + 1 && review_matches_scc(
                    #[trigger] old(queue).entries@[j],
                    *old(ledger),
                    cc,
                ) implies exists|t: int| 0 <= t < m_new.len() && #[trigger] m_new[t] == j by {
                if j == i as int {
                    assert(m_new[m_new.len() - 1] == i);
                } else {
                    let t0 = choose|t: int| 0 <= t < m_old.len() && #[trigger] m_old[t] == j;
                    assert(m_new[t0] == j);
                }
            }
        }
        i = i + 1;
    }
    proof {
        assert(old(queue).entries@.take(n as int) =~= old(queue).entries@);
    }

    let total = matched.len();
    let mut t: usize = 0;
    while t < total
        invariant
            old(queue).wf(),
            queue.wf(),
            ledger.wf(),
            ledger.seal_salt == old(ledger).seal_salt,
            total == matched@.len(),
            t <= total,
            queue.entries@.len() == old(queue).entries@.len(),
            forall|u: int|
                0 <= u < matched@.len() ==> #[trigger] matched@[u] < old(queue).entries@.len()
                    && review_matches_scc(
                    old(queue).entries@[matched@[u] as int],
                    *old(ledger),
                    cc,
                ),
            forall|u1: int, u2: int|
                0 <= u1 < u2 < matched@.len() ==> #[trigger] matched@[u1] < #[trigger] matched@[u2],
            forall|j: int|
                0 <= j < old(queue).entries@.len() && review_matches_scc(
                    #[trigger] old(queue).entries@[j],
                    *old(ledger),
                    cc,
                ) ==> exists|u: int| 0 <= u < matched@.len() && #[trigger] matched@[u] == j,
            forall|u: int|
                0 <= u < t ==> entry_decided(
                    queue.entries@[#[trigger] matched@[u] as int],
                    old(queue).entries@[matched@[u] as int],
                    OversightStatus::Approved,
                    "scc-registration"@,
                    "SCC registered for this destination"@,
                    now,
                ),
            forall|j: int|
                0 <= j < old(queue).entries@.len() && !(exists|u: int|
                    0 <= u < t && #[trigger] matched@[u] == j) ==> queue.entries@[j] == old(
                    queue,
                ).entries@[j],
            old(ledger).chain_events("human-oversight"@).len() + total < usize::MAX
                ==> ledger.chain_events("human-oversight"@).len() == old(ledger).chain_events(
                "human-oversight"@,
            ).len() + t,
        decreases total - t,
    {
        let idx = matched[t];
        proof {
            assert(!(exists|u: int| 0 <= u < t && #[trigger] matched@[u] == idx as int));
            assert(queue.entries@[idx as int] == old(queue).entries@[idx as int]);
        }
        decide_entry_at(
            queue,
            idx,
            OversightStatus::Approved,
            "scc-registration",
            "SCC registered for this destination",
            now,
        );
        let seal = clone_string(&queue.entries[idx].oversight.seal_id);
        append_oversight_event(
            ledger,
            seal.as_str(),
            OversightStatus::Approved,
            "scc-registration",
            "SCC registered for this destination",
            now,
        );
        t = t + 1;
    }
    proof {
        if old(ledger).chain_events("human-oversight"@).len() + total < usize::MAX {
            assert(total == count_scc_matches(
                old(queue).entries@,
                *old(ledger),
                destination_country_code@,
            ));
        }
    }
    total
}

// ---- read projections ----

/// Evidence event ids whose review is already decided: these are excluded
/// from the attention queue.
pub open spec fn decided_ids(entries: Seq<ReviewEntry>) -> Seq<Seq<char>>
    decreases entries.len(),
{
    if entries.len() == 0 {
        Seq::<Seq<char>>::empty()
    } else {
        decided_ids(entries.drop_last()) + (if entries.last().oversight.status
            != OversightStatus::Pending && evidence_ref(entries.last()) is Some {
            seq![evidence_ref(entries.last()).unwrap()]
        } else {
            Seq::<Seq<char>>::empty()
        })
    }
}

pub fn get_decided_evidence_event_ids(queue: &ReviewQueue) -> (r: Vec<String>)
    ensures
        seq_views(r@) == decided_ids(queue.entries@),
{
    let mut r: Vec<String> = Vec::new();
    let mut i: usize = 0;
    while i < queue.entries.len()
        invariant
            i <= queue.entries@.len(),
            seq_views(r@) == decided_ids(queue.entries@.take(i as int)),
        decreases queue.entries@.len() - i,
    {
        let e = &queue.entries[i];
        let ghost before = r@;
        if !matches!(e.oversight.status, OversightStatus::Pending) {
            match &e.record.evidence_event_id {
                Option::Some(id) => {
                    r.push(clone_string(id));
                },
                Option::None => {},
            }
        }
        proof {
            let taken = queue.entries@.take(i + 1 as int);
            assert(taken.drop_last() =~= queue.entries@.take(i as int));
            assert(taken.last() == queue.entries@[i as int]);
            if r@.len() > before.len() {
                assert(seq_views(r@) =~= seq_views(before) + seq![r@.last()@]);
            } else {
                assert(seq_views(r@) =~= seq_views(before));
                assert(decided_ids(taken) =~= decided_ids(queue.entries@.take(i as int)));
            }
        }
        i = i + 1;
    }
    proof {
        assert(queue.entries@.take(queue.entries@.len() as int) =~= queue.entries@);
    }
    r
}

/// One row of the review listing, with the final decision derived from the
/// oversight status.
#[derive(Debug)]
pub struct ReviewItemResponse {
    pub id: String,
    pub created: u64,
    pub agent_id: String,
    pub action: String,
    pub module: String,
    pub suggested_decision: String,
    pub status: String,
    pub evidence_id: String,
    pub decided_by: Option<String>,
    pub decision_reason: Option<String>,
    pub final_decision: Option<String>,
    pub decided_at: Option<u64>,
}

pub open spec fn entry_passes(e: ReviewEntry, filt: Option<OversightStatus>) -> bool {
    match filt {
        Option::None => true,
        Option::Some(st) => e.oversight.status == st,
    }
}

/// How a listing row reflects its entry: APPROVED maps to ALLOW, REJECTED
/// to BLOCK, and anything decided reads as DECIDED.
pub open spec fn item_ok(it: ReviewItemResponse, e: ReviewEntry) -> bool {
    &&& it.id == e.record.seal_id
    &&& it.created == e.record.created_at
    &&& it.agent_id == e.record.agent_id
    &&& it.action == e.record.action_summary
    &&& it.module@ == "sovereign-shield"@
    &&& it.suggested_decision@ == "REVIEW"@
    &&& it.status@ == if e.oversight.status == OversightStatus::Pending {
        "PENDING"@
    } else {
        "DECIDED"@
    }
    &&& match e.record.evidence_event_id {
        Option::Some(id) => it.evidence_id == id,
        Option::None => it.evidence_id == e.record.seal_id,
    }
    &&& it.decided_by == e.oversight.reviewer_id
    &&& it.decision_reason == e.oversight.comments
    &&& it.decided_at == e.oversight.decided_at
    &&& match e.oversight.status {
        OversightStatus::Pending => it.final_decision is None,
        OversightStatus::Approved => it.final_decision matches Option::Some(d) && d@
            == "ALLOW"@,
        OversightStatus::Rejected => it.final_decision matches Option::Some(d) && d@
            == "BLOCK"@,
    }
}

/// The items are exactly the entries passing the filter, in order.
pub open spec fn items_match(
    items: Seq<ReviewItemResponse>,
    entries: Seq<ReviewEntry>,
    filt: Option<OversightStatus>,
) -> bool
    decreases entries.len(),
{
    if entries.len() == 0 {
        items.len() == 0
    } else if entry_passes(entries[0], filt) {
        items.len() > 0 && item_ok(items[0], entries[0]) && items_match(
            items.skip(1),
            entries.skip(1),
            filt,
        )
    } else {
        items_match(items, entries.skip(1), filt)
    }
}

proof fn lemma_items_snoc_pass(
    items: Seq<ReviewItemResponse>,
    entries: Seq<ReviewEntry>,
    filt: Option<OversightStatus>,
    it: ReviewItemResponse,
    e: ReviewEntry,
)
    requires
        items_match(items, entries, filt),
        entry_passes(e, filt),
        item_ok(it, e),
    ensures
        items_match(items.push(it), entries.push(e), filt),
    decreases entries.len(),
{
    if entries.len() == 0 {
        assert(items.len() == 0);
        assert(entries.push(e)[0] == e);
        assert(items.push(it)[0] == it);
        assert(items.push(it).skip(1) =~= Seq::<ReviewItemResponse>::empty());
        assert(entries.push(e).skip(1) =~= Seq::<ReviewEntry>::empty());
        assert(items_match(
            Seq::<ReviewItemResponse>::empty(),
            Seq::<ReviewEntry>::empty(),
            filt,
        ));
        assert(items_match(items.push(it), entries.push(e), filt));
    } else {
        assert(entries.push(e)[0] == entries[0]);
        assert(entries.push(e).skip(1) =~= entries.skip(1).push(e));
        if entry_passes(entries[0], filt) {
            assert(items.len() > 0);
            assert(items.push(it)[0] == items[0]);
            assert(items.push(it).skip(1) =~= items.skip(1).push(it));
            lemma_items_snoc_pass(items.skip(1), entries.skip(1), filt, it, e);
            assert(items_match(items.push(it), entries.push(e), filt));
        } else {
            lemma_items_snoc_pass(items, entries.skip(1), filt, it, e);
            assert(items_match(items.push(it), entries.push(e), filt));
        }
    }
}

proof fn lemma_items_snoc_skip(
    items: Seq<ReviewItemResponse>,
    entries: Seq<ReviewEntry>,
    filt: Option<OversightStatus>,
    e: ReviewEntry,
)
    requires
        items_match(items, entries, filt),
        !entry_passes(e, filt),
    ensures
        items_match(items, entries.push(e), filt),
    decreases entries.len(),
{
    if entries.len() == 0 {
        assert(items.len() == 0);
        assert(entries.push(e)[0] == e);
        assert(entries.push(e).skip(1) =~= Seq::<ReviewEntry>::empty());
        assert(items_match(items, Seq::<ReviewEntry>::empty(), filt));
        assert(items_match(items, entries.push(e), filt));
    } else {
        assert(entries.push(e)[0] == entries[0]);
        assert(entries.push(e).skip(1) =~= entries.skip(1).push(e));
        if entry_passes(entries[0], filt) {
            assert(items.len() > 0);
            lemma_items_snoc_skip(items.skip(1), entries.skip(1), filt, e);
            assert(items_match(items, entries.push(e), filt));
        } else {
            lemma_items_snoc_skip(items, entries.skip(1), filt, e);
            assert(items_match(items, entries.push(e), filt));
        }
    }
}

fn build_review_item(e: &ReviewEntry) -> (it: ReviewItemResponse)
    ensures
        item_ok(it, *e),
{
    let status: &'static str = if matches!(e.oversight.status, OversightStatus::Pending) {
        "PENDING"
    } else {
        "DECIDED"
    };
    let final_decision: Option<String> = match e.oversight.status {
        OversightStatus::Pending => Option::None,
        OversightStatus::Approved => Option::Some(String::from_str("ALLOW")),
        OversightStatus::Rejected => Option::Some(String::from_str("BLOCK")),
    };
    let evidence_id = match &e.record.evidence_event_id {
        Option::Some(id) => clone_string(id),
        Option::None => clone_string(&e.record.seal_id),
    };
    ReviewItemResponse {
        id: clone_string(&e.record.seal_id),
        created: e.record.created_at,
        agent_id: clone_string(&e.record.agent_id),
        action: clone_string(&e.record.action_summary),
        module: String::from_str("sovereign-shield"),
        suggested_decision: String::from_str("REVIEW"),
        status: String::from_str(status),
        evidence_id,
        decided_by: clone_opt_string(&e.oversight.reviewer_id),
        decision_reason: clone_opt_string(&e.oversight.comments),
        final_decision,
        decided_at: e.oversight.decided_at,
    }
}

/// Projects the queue into listing rows, optionally filtered by oversight
/// status, joining each record with its oversight row.
pub fn list_reviews(queue: &ReviewQueue, status: Option<OversightStatus>) -> (r: Vec<
    ReviewItemResponse,
>)
    ensures
        items_match(r@, queue.entries@, status),
{
    let mut r: Vec<ReviewItemResponse> = Vec::new();
    let mut i: usize = 0;
    while i < queue.entries.len()
        invariant
            i <= queue.entries@.len(),
            items_match(r@, queue.entries@.take(i as int), status),
        decreases queue.entries@.len() - i,
    {
        let e = &queue.entries[i];
        let passes = match status {
            Option::None => true,
            Option::Some(st) => st == e.oversight.status,
        };
        proof {
            assert(queue.entries@.take(i + 1 as int) =~= queue.entries@.take(i as int).push(
                queue.entries@[i as int],
            ));
        }
        if passes {
            let it = build_review_item(e);
            proof {
                lemma_items_snoc_pass(
                    r@,
                    queue.entries@.take(i as int),
                    status,
                    it,
                    queue.entries@[i as int],
                );
            }
            r.push(it);
        } else {
            proof {
                lemma_items_snoc_skip(
                    r@,
                    queue.entries@.take(i as int),
                    status,
                    queue.entries@[i as int],
                );
            }
        }
        i = i + 1;
    }
    proof {
        assert(queue.entries@.take(queue.entries@.len() as int) =~= queue.entries@);
    }
    r
}

/// An evidence reference, once in the queue, stays there as the queue
/// grows: later entries are only appended.
pub proof fn lemma_evidence_ref_monotone(a: Seq<ReviewEntry>, b: Seq<ReviewEntry>, eid: Seq<char>)
    requires
        seq_has_evidence_ref(a, eid),
        a.is_prefix_of(b),
    ensures
        seq_has_evidence_ref(b, eid),
{
    let i = choose|i: int|
        0 <= i < a.len() && #[trigger] evidence_ref(a[i]) == Option::Some(eid);
    assert(b.take(a.len() as int) == a);
    assert(b[i] == b.take(a.len() as int)[i]);
    assert(evidence_ref(b[i]) == Option::Some(eid));
}

/// Review idempotence: once a review entry for an evidence event is in the
/// queue (and it was the first such entry), a second creation for the same
/// event finds it, returns the same seal id, and inserts nothing — the
/// queue keeps exactly one row per evidence event.
pub proof fn lemma_create_review_idempotent(before: ReviewQueue, after: ReviewQueue, eid: Seq<char>)
    requires
        !has_evidence_ref(before, eid),
        after.entries@.len() == before.entries@.len() + 1,
        after.entries@.take(before.entries@.len() as int) == before.entries@,
        evidence_ref(after.entries@.last()) == Option::Some(eid),
    ensures
        has_evidence_ref(after, eid),
        forall|j: int|
            0 <= j < after.entries@.len() - 1 ==> #[trigger] evidence_ref(after.entries@[j])
                != Option::Some(eid),
{
    let n = before.entries@.len() as int;
    assert(evidence_ref(after.entries@[n]) == Option::Some(eid));
    assert forall|j: int|
        0 <= j < after.entries@.len() - 1 implies #[trigger] evidence_ref(after.entries@[j])
        != Option::Some(eid) by {
        assert(after.entries@[j] == before.entries@[j]);
    }
}

} // verus!
