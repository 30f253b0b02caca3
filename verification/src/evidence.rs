//! The evidence ledger: an append-only, hash-chained store of compliance
//! events, one chain per source system. Appending computes the payload hash,
//! links the event to its predecessor and seals it; verification recomputes
//! all three and reports the first mismatch.
use vstd::prelude::*;

use crate::crypto::{sha256_hex, sha256_hex_of, uuid_hyphenated};
use crate::payload::{canon_payload, canonical_payload, clone_payload, payload_model, Payload};
use crate::payload::{lookup_value, ValueModel};
use crate::text::{
    clone_opt_string, clone_string, clone_vec_string, contains_ci, dec_seq, is_substring_ci,
    u64_to_dec,
};

verus! {

use vstd::string::StrSliceExecFns;
use vstd::string::StringExecFns;

/// One immutable, sealed record of a compliance-relevant fact.
#[derive(Debug)]
pub struct EvidenceEvent {
    pub event_id: String,
    pub correlation_id: String,
    pub causation_id: Option<String>,
    pub sequence_number: u64,
    pub occurred_at: u64,
    pub recorded_at: u64,
    pub event_type: String,
    pub severity: String,
    pub source_system: String,
    pub source_ip: Option<String>,
    pub source_user_agent: Option<String>,
    pub regulatory_tags: Vec<String>,
    pub articles: Vec<String>,
    pub payload: Payload,
    pub payload_hash: String,
    pub previous_hash: String,
    pub nexus_seal: Option<String>,
    pub verification_status: String,
}

/// What a caller hands to `create_event`.
#[derive(Debug)]
pub struct CreateEventParams {
    pub event_type: String,
    pub severity: String,
    pub source_system: String,
    pub regulatory_tags: Vec<String>,
    pub articles: Vec<String>,
    pub payload: Payload,
    pub correlation_id: Option<String>,
    pub causation_id: Option<String>,
    pub source_ip: Option<String>,
    pub source_user_agent: Option<String>,
}

/// The events of one source system, in append order.
#[derive(Debug)]
pub struct Chain {
    pub source_system: String,
    pub events: Vec<EvidenceEvent>,
}

/// The whole ledger: one chain per source system, plus the seal salt.
#[derive(Debug)]
pub struct Ledger {
    pub chains: Vec<Chain>,
    pub seal_salt: String,
}

#[derive(Clone, Copy, PartialEq, Eq, Structural, Debug)]
pub enum LedgerError {
    ChainFull,
}

// ---- what it means for events to be sealed correctly ----

/// The stored payload hash is the hash of the payload's canonical form.
pub open spec fn payload_hash_ok(e: EvidenceEvent) -> bool {
    e.payload_hash@ == sha256_hex_of(canon_payload(payload_model(e.payload)))
}

/// The seal binds payload hash, previous hash and the salt together.
pub open spec fn seal_ok(e: EvidenceEvent, salt: Seq<char>) -> bool {
    e.nexus_seal matches Option::Some(s) && s@ == sha256_hex_of(
        e.payload_hash@ + e.previous_hash@ + salt,
    )
}

/// Everything that holds of the event at position `i` of a well-formed
/// chain: it belongs to the chain, is densely numbered from 1, carries the
/// right hashes, and links to its predecessor.
pub open spec fn event_wf_at(
    events: Seq<EvidenceEvent>,
    i: int,
    name: Seq<char>,
    salt: Seq<char>,
) -> bool {
    &&& events[i].source_system@ == name
    &&& events[i].sequence_number == i + 1
    &&& payload_hash_ok(events[i])
    &&& seal_ok(events[i], salt)
    &&& if i == 0 {
        events[i].previous_hash@ == Seq::<char>::empty()
    } else {
        events[i].previous_hash@ == events[i - 1].payload_hash@
    }
}

pub open spec fn chain_wf(c: Chain, salt: Seq<char>) -> bool {
    forall|i: int| 0 <= i < c.events@.len() ==> #[trigger] event_wf_at(c.events@, i, c.source_system@, salt)
}

impl Ledger {
    /// Chains are well formed and no source system appears twice.
    pub open spec fn wf(self) -> bool {
        &&& forall|k: int|
            0 <= k < self.chains@.len() ==> chain_wf(#[trigger] self.chains@[k], self.seal_salt@)
        &&& forall|k1: int, k2: int|
            0 <= k1 < k2 < self.chains@.len() ==> (#[trigger] self.chains@[k1]).source_system@
                != (#[trigger] self.chains@[k2]).source_system@
    }

    pub open spec fn spec_has_chain(self, name: Seq<char>) -> bool {
        exists|k: int|
            0 <= k < self.chains@.len() && (#[trigger] self.chains@[k]).source_system@ == name
    }

    /// The events recorded for one source system (empty if none yet).
    pub open spec fn chain_events(self, name: Seq<char>) -> Seq<EvidenceEvent> {
        if self.spec_has_chain(name) {
            let k = choose|k: int|
                0 <= k < self.chains@.len() && (#[trigger] self.chains@[k]).source_system@
                    == name;
            self.chains@[k].events@
        } else {
            Seq::<EvidenceEvent>::empty()
        }
    }

    pub fn new(seal_salt: String) -> (l: Ledger)
        ensures
            l.wf(),
            l.chains@.len() == 0,
            l.seal_salt == seal_salt,
            forall|name: Seq<char>| #[trigger] l.chain_events(name) == Seq::<EvidenceEvent>::empty(),
    {
        Ledger { chains: Vec::new(), seal_salt }
    }

    pub fn chain_count(&self) -> (n: usize)
        ensures
            n == self.chains@.len(),
    {
        self.chains.len()
    }

    pub fn chain(&self, k: usize) -> (c: &Chain)
        requires
            k < self.chains@.len(),
        ensures
            *c == self.chains@[k as int],
    {
        &self.chains[k]
    }
}

/// In a well-formed ledger, a chain found at index k carries exactly the
/// events that `chain_events` speaks of.
pub proof fn lemma_chain_events_at(l: Ledger, k: int)
    requires
        l.wf(),
        0 <= k < l.chains@.len(),
    ensures
        l.chain_events(l.chains@[k].source_system@) == l.chains@[k].events@,
{
    let name = l.chains@[k].source_system@;
    assert(l.spec_has_chain(name));
    let j = choose|j: int|
        0 <= j < l.chains@.len() && (#[trigger] l.chains@[j]).source_system@ == name;
    if j != k {
        if j < k {
            assert(l.chains@[j].source_system@ != l.chains@[k].source_system@);
        } else {
            assert(l.chains@[k].source_system@ != l.chains@[j].source_system@);
        }
        assert(false);
    }
}

/// A ledger without a chain of some name records nothing under it.
pub proof fn lemma_no_chain_no_events(l: Ledger, name: Seq<char>)
    requires
        !l.spec_has_chain(name),
    ensures
        l.chain_events(name) == Seq::<EvidenceEvent>::empty(),
{
}

// ---- hashing helpers (the ledger's on-disk contract) ----

/// Hash of the canonical serialization of a payload; deterministic, so any
/// two appends of payloads with the same model store the same hash.
pub fn compute_payload_hash(p: &Payload) -> (r: String)
    ensures
        r@ == sha256_hex_of(canon_payload(payload_model(*p))),
        r@.len() == 64,
{
    let canonical = canonical_payload(p);
    sha256_hex(canonical.as_str())
}

/// The seal: SHA-256 over payload hash, previous hash and the salt.
pub fn compute_nexus_seal(payload_hash: &str, previous_hash: &str, seal_salt: &str) -> (r:
    String)
    ensures
        r@ == sha256_hex_of(payload_hash@ + previous_hash@ + seal_salt@),
{
    let input = String::from_str(payload_hash).concat(previous_hash).concat(seal_salt);
    sha256_hex(input.as_str())
}

/// Hash stability: payloads with equal models hash identically, because the
/// canonical form is a function of the model alone.
pub proof fn lemma_payload_hash_stable(p1: Payload, p2: Payload)
    requires
        payload_model(p1) == payload_model(p2),
    ensures
        canon_payload(payload_model(p1)) == canon_payload(payload_model(p2)),
        sha256_hex_of(canon_payload(payload_model(p1))) == sha256_hex_of(
            canon_payload(payload_model(p2)),
        ),
{
}

// ---- equality of events up to their mathematical content ----

pub open spec fn event_matches(a: EvidenceEvent, b: EvidenceEvent) -> bool {
    &&& a.event_id == b.event_id
    &&& a.correlation_id == b.correlation_id
    &&& a.causation_id == b.causation_id
    &&& a.sequence_number == b.sequence_number
    &&& a.occurred_at == b.occurred_at
    &&& a.recorded_at == b.recorded_at
    &&& a.event_type == b.event_type
    &&& a.severity == b.severity
    &&& a.source_system == b.source_system
    &&& a.source_ip == b.source_ip
    &&& a.source_user_agent == b.source_user_agent
    &&& a.regulatory_tags@ == b.regulatory_tags@
    &&& a.articles@ == b.articles@
    &&& payload_model(a.payload) == payload_model(b.payload)
    &&& a.payload_hash == b.payload_hash
    &&& a.previous_hash == b.previous_hash
    &&& a.nexus_seal == b.nexus_seal
    &&& a.verification_status == b.verification_status
}

pub fn duplicate_event(e: &EvidenceEvent) -> (r: EvidenceEvent)
    ensures
        event_matches(r, *e),
{
    EvidenceEvent {
        event_id: clone_string(&e.event_id),
        correlation_id: clone_string(&e.correlation_id),
        causation_id: clone_opt_string(&e.causation_id),
        sequence_number: e.sequence_number,
        occurred_at: e.occurred_at,
        recorded_at: e.recorded_at,
        event_type: clone_string(&e.event_type),
        severity: clone_string(&e.severity),
        source_system: clone_string(&e.source_system),
        source_ip: clone_opt_string(&e.source_ip),
        source_user_agent: clone_opt_string(&e.source_user_agent),
        regulatory_tags: clone_vec_string(&e.regulatory_tags),
        articles: clone_vec_string(&e.articles),
        payload: clone_payload(&e.payload),
        payload_hash: clone_string(&e.payload_hash),
        previous_hash: clone_string(&e.previous_hash),
        nexus_seal: clone_opt_string(&e.nexus_seal),
        verification_status: clone_string(&e.verification_status),
    }
}

// ---- reading a chain ----

impl Ledger {
    fn find_chain_index(&self, name: &String) -> (r: Option<usize>)
        ensures
            match r {
                Option::Some(k) => k < self.chains@.len() && self.chains@[
                    k as int
                ].source_system@ == name@,
                Option::None => forall|k: int|
                    0 <= k < self.chains@.len() ==> (#[trigger] self.chains@[k]).source_system@
                        != name@,
            },
    {
        let mut i: usize = 0;
        while i < self.chains.len()
            invariant
                i <= self.chains@.len(),
                forall|k: int|
                    0 <= k < i ==> (#[trigger] self.chains@[k]).source_system@ != name@,
            decreases self.chains@.len() - i,
        {
            if self.chains[i].source_system == *name {
                return Option::Some(i);
            }
            i = i + 1;
        }
        Option::None
    }
}

/// The payload hash of the newest event in a chain, if the chain has any:
/// what the next append will link to.
pub fn get_latest_hash(ledger: &Ledger, source_system: &str) -> (r: Option<String>)
    requires
        ledger.wf(),
    ensures
        ({
            let events = ledger.chain_events(source_system@);
            match r {
                Option::Some(h) => events.len() > 0 && h@ == events.last().payload_hash@,
                Option::None => events.len() == 0,
            }
        }),
{
    let name = String::from_str(source_system);
    match ledger.find_chain_index(&name) {
        Option::Some(k) => {
            proof {
                lemma_chain_events_at(*ledger, k as int);
            }
            let chain = &ledger.chains[k];
            let n = chain.events.len();
            if n == 0 {
                Option::None
            } else {
                Option::Some(clone_string(&chain.events[n - 1].payload_hash))
            }
        },
        Option::None => {
            proof {
                lemma_no_chain_no_events(*ledger, source_system@);
            }
            Option::None
        },
    }
}

/// The sequence number the next event in this chain will carry.
pub fn get_next_sequence(ledger: &Ledger, source_system: &str) -> (r: u64)
    requires
        ledger.wf(),
        ledger.chain_events(source_system@).len() < u64::MAX,
    ensures
        r == ledger.chain_events(source_system@).len() + 1,
{
    let name = String::from_str(source_system);
    match ledger.find_chain_index(&name) {
        Option::Some(k) => {
            proof {
                lemma_chain_events_at(*ledger, k as int);
            }
            let n = ledger.chains[k].events.len();
            n as u64 + 1
        },
        Option::None => {
            proof {
                lemma_no_chain_no_events(*ledger, source_system@);
            }
            1
        },
    }
}

// ---- append ----

/// Appends one event: reads the chain's next sequence number and latest
/// hash, computes payload hash and seal, and stores the new event at the
/// chain's tail. The returned event equals the stored one.
pub fn create_event(ledger: &mut Ledger, params: CreateEventParams, now: u64) -> (r: Result<
    EvidenceEvent,
    LedgerError,
>)
    requires
        old(ledger).wf(),
    ensures
        final(ledger).wf(),
        final(ledger).seal_salt == old(ledger).seal_salt,
        r matches Result::Err(e) ==> e == LedgerError::ChainFull && *final(ledger) == *old(
            ledger,
        ) && old(ledger).chain_events(params.source_system@).len() == usize::MAX,
        r matches Result::Ok(ev) ==> ({
            let name = params.source_system@;
            let before = old(ledger).chain_events(name);
            let after = final(ledger).chain_events(name);
            &&& before.len() < usize::MAX
            &&& after.len() == before.len() + 1
            &&& after.take(before.len() as int) == before
            &&& event_matches(after.last(), ev)
            &&& ev.sequence_number == before.len() + 1
            &&& ev.previous_hash@ == if before.len() == 0 {
                Seq::<char>::empty()
            } else {
                before.last().payload_hash@
            }
            &&& ev.payload_hash@ == sha256_hex_of(canon_payload(payload_model(params.payload)))
            &&& payload_hash_ok(ev)
            &&& seal_ok(ev, old(ledger).seal_salt@)
            &&& ev.event_type == params.event_type
            &&& ev.severity == params.severity
            &&& ev.source_system == params.source_system
            &&& ev.regulatory_tags@ == params.regulatory_tags@
            &&& ev.articles@ == params.articles@
            &&& payload_model(ev.payload) == payload_model(params.payload)
            &&& ev.causation_id == params.causation_id
            &&& ev.source_ip == params.source_ip
            &&& ev.source_user_agent == params.source_user_agent
            &&& ev.occurred_at == now
            &&& ev.recorded_at == now
            &&& ev.verification_status@ == "VERIFIED"@
            &&& ev.event_id@.len() == 36
            &&& match params.correlation_id {
                Option::Some(c) => ev.correlation_id == c,
                Option::None => ev.correlation_id@.len() == 36,
            }
            &&& forall|j: int|
                0 <= j < old(ledger).chains@.len() && (#[trigger] old(
                    ledger,
                ).chains@[j]).source_system@ != name ==> final(ledger).chains@[j] == old(
                    ledger,
                ).chains@[j]
        }),
{
    let event_id = uuid_hyphenated();
    let correlation_id = match &params.correlation_id {
        Option::Some(c) => clone_string(c),
        Option::None => uuid_hyphenated(),
    };

    let k: usize = match ledger.find_chain_index(&params.source_system) {
        Option::Some(k) => k,
        Option::None => {
            let fresh = Chain {
                source_system: clone_string(&params.source_system),
                events: Vec::new(),
            };
            ledger.chains.push(fresh);
            ledger.chains.len() - 1
        },
    };
    proof {
        lemma_chain_events_at(*ledger, k as int);
    }

    let n = ledger.chains[k].events.len();
    if n == usize::MAX {
        proof {
            // A full chain is found, never created: a fresh chain is empty.
            assert(old(ledger).spec_has_chain(params.source_system@));
            assert(ledger.chains@ == old(ledger).chains@);
        }
        return Result::Err(LedgerError::ChainFull);
    }

    let previous_hash: String = if n == 0 {
        String::new()
    } else {
        clone_string(&ledger.chains[k].events[n - 1].payload_hash)
    };
    let payload_hash = compute_payload_hash(&params.payload);
    let nexus_seal = compute_nexus_seal(
        payload_hash.as_str(),
        previous_hash.as_str(),
        ledger.seal_salt.as_str(),
    );

    let ev = EvidenceEvent {
        event_id,
        correlation_id,
        causation_id: params.causation_id,
        sequence_number: n as u64 + 1,
        occurred_at: now,
        recorded_at: now,
        event_type: params.event_type,
        severity: params.severity,
        source_system: params.source_system,
        source_ip: params.source_ip,
        source_user_agent: params.source_user_agent,
        regulatory_tags: params.regulatory_tags,
        articles: params.articles,
        payload: params.payload,
        payload_hash,
        previous_hash,
        nexus_seal: Option::Some(nexus_seal),
        verification_status: String::from_str("VERIFIED"),
    };
    let stored = duplicate_event(&ev);
    ledger.chains[k].events.push(stored);

    proof {
        let name = ev.source_system@;
        let salt = ledger.seal_salt@;
        let events = ledger.chains@[k as int].events@;
        let old_events = if old(ledger).spec_has_chain(name) {
            old(ledger).chain_events(name)
        } else {
            Seq::<EvidenceEvent>::empty()
        };
        assert(events.len() == old_events.len() + 1);
        assert forall|i: int| 0 <= i < events.len() implies #[trigger] event_wf_at(
            events,
            i,
            name,
            salt,
        ) by {
            if i < events.len() - 1 {
                assert(event_wf_at(old_events, i, name, salt));
                assert(events[i] == old_events[i]);
                if i > 0 {
                    assert(events[i - 1] == old_events[i - 1]);
                }
            } else {
                assert(events[i] == events.last());
                assert(event_matches(events.last(), ev));
                if i > 0 {
                    assert(events[i - 1] == old_events[i - 1]);
                    assert(event_wf_at(old_events, i - 1, name, salt));
                }
            }
        }
        assert(chain_wf(ledger.chains@[k as int], salt));
        assert forall|j: int|
            0 <= j < ledger.chains@.len() && j != k implies chain_wf(
            #[trigger] ledger.chains@[j],
            salt,
        ) by {
            if j < old(ledger).chains@.len() {
                assert(ledger.chains@[j] == old(ledger).chains@[j]);
            }
        }
        assert(ledger.wf());
        lemma_chain_events_at(*ledger, k as int);
        assert(ledger.chain_events(name).take(old_events.len() as int) =~= old_events);
    }
    Result::Ok(ev)
}

// ---- verification ----

/// The three per-event checks, in the order verification applies them.
pub open spec fn row_hash_ok(rows: Seq<EvidenceEvent>, i: int) -> bool {
    payload_hash_ok(rows[i])
}

pub open spec fn row_seal_ok(rows: Seq<EvidenceEvent>, i: int, salt: Seq<char>) -> bool {
    match rows[i].nexus_seal {
        Option::Some(s) => s@ == sha256_hex_of(
            rows[i].payload_hash@ + rows[i].previous_hash@ + salt,
        ),
        Option::None => true,
    }
}

pub open spec fn row_linked(rows: Seq<EvidenceEvent>, i: int) -> bool {
    i == 0 || rows[i].previous_hash@ == rows[i - 1].payload_hash@
}

pub open spec fn row_ok(rows: Seq<EvidenceEvent>, i: int, salt: Seq<char>) -> bool {
    row_hash_ok(rows, i) && row_seal_ok(rows, i, salt) && row_linked(rows, i)
}

/// A chain passes verification when every row passes all three checks.
pub open spec fn rows_valid(rows: Seq<EvidenceEvent>, salt: Seq<char>) -> bool {
    forall|i: int| 0 <= i < rows.len() ==> #[trigger] row_ok(rows, i, salt)
}

/// The message reported for the first failing row.
pub open spec fn fail_message(rows: Seq<EvidenceEvent>, i: int, salt: Seq<char>) -> Seq<char> {
    if !row_hash_ok(rows, i) {
        "Event "@ + rows[i].event_id@ + " payload hash mismatch"@
    } else if !row_seal_ok(rows, i, salt) {
        "Event "@ + rows[i].event_id@ + " nexus seal mismatch"@
    } else {
        "Event "@ + rows[i].event_id@ + " chain break: previous_hash does not match"@
    }
}

/// Recomputes every hash, seal and link over a sequence of rows exactly as
/// loaded, and reports the first mismatch. This is the checker that tamper
/// detection rests on: it takes the rows as they are, well formed or not.
pub fn verify_events(rows: &Vec<EvidenceEvent>, seal_salt: &str) -> (r: (bool, String))
    ensures
        r.0 == rows_valid(rows@, seal_salt@),
        r.0 && rows@.len() == 0 ==> r.1@ == "No events to verify"@,
        r.0 && rows@.len() > 0 ==> r.1@ == "Chain verified: "@ + dec_seq(rows@.len() as u64)
            + " events"@,
        !r.0 ==> exists|i: int|
            {
                &&& 0 <= i < rows@.len()
                &&& !(#[trigger] row_ok(rows@, i, seal_salt@))
                &&& forall|j: int| 0 <= j < i ==> #[trigger] row_ok(rows@, j, seal_salt@)
                &&& r.1@ == fail_message(rows@, i, seal_salt@)
            },
{
    let n = rows.len();
    if n == 0 {
        return (true, String::from_str("No events to verify"));
    }
    let mut i: usize = 0;
    while i < n
        invariant
            n == rows@.len(),
            i <= n,
            forall|j: int| 0 <= j < i ==> #[trigger] row_ok(rows@, j, seal_salt@),
        decreases n - i,
    {
        let row = &rows[i];
        let expected_hash = compute_payload_hash(&row.payload);
        let hash_good = row.payload_hash == expected_hash;
        proof {
            assert(hash_good == row_hash_ok(rows@, i as int));
        }
        if !hash_good {
            let msg = String::from_str("Event ").concat(row.event_id.as_str()).concat(
                " payload hash mismatch",
            );
            proof {
                assert(!row_ok(rows@, i as int, seal_salt@));
                assert(msg@ == fail_message(rows@, i as int, seal_salt@));
            }
            return (false, msg);
        }
        let seal_good: bool = match &row.nexus_seal {
            Option::Some(seal) => {
                let expected_seal = compute_nexus_seal(
                    row.payload_hash.as_str(),
                    row.previous_hash.as_str(),
                    seal_salt,
                );
                *seal == expected_seal
            },
            Option::None => true,
        };
        proof {
            assert(seal_good == row_seal_ok(rows@, i as int, seal_salt@));
        }
        if !seal_good {
            let msg = String::from_str("Event ").concat(row.event_id.as_str()).concat(
                " nexus seal mismatch",
            );
            proof {
                assert(!row_ok(rows@, i as int, seal_salt@));
                assert(msg@ == fail_message(rows@, i as int, seal_salt@));
            }
            return (false, msg);
        }
        let linked: bool = if i > 0 {
            row.previous_hash == rows[i - 1].payload_hash
        } else {
            true
        };
        proof {
            assert(linked == row_linked(rows@, i as int));
        }
        if !linked {
            let msg = String::from_str("Event ").concat(row.event_id.as_str()).concat(
                " chain break: previous_hash does not match",
            );
            proof {
                assert(!row_ok(rows@, i as int, seal_salt@));
                assert(msg@ == fail_message(rows@, i as int, seal_salt@));
            }
            return (false, msg);
        }
        proof {
            assert(row_ok(rows@, i as int, seal_salt@));
        }
        i = i + 1;
    }
    let count = u64_to_dec(n as u64);
    let msg = String::from_str("Chain verified: ").concat(count.as_str()).concat(" events");
    (true, msg)
}

/// A well-formed chain passes every verification check.
pub proof fn lemma_wf_chain_verifies(l: Ledger, name: Seq<char>)
    requires
        l.wf(),
    ensures
        rows_valid(l.chain_events(name), l.seal_salt@),
{
    if l.spec_has_chain(name) {
        let k = choose|k: int|
            0 <= k < l.chains@.len() && (#[trigger] l.chains@[k]).source_system@ == name;
        let rows = l.chain_events(name);
        assert(chain_wf(l.chains@[k], l.seal_salt@));
        assert forall|i: int| 0 <= i < rows.len() implies #[trigger] row_ok(
            rows,
            i,
            l.seal_salt@,
        ) by {
            assert(event_wf_at(l.chains@[k].events@, i, l.chains@[k].source_system@, l.seal_salt@));
        }
    }
}

/// Verifies one chain of the ledger itself. Because appends maintain the
/// chain invariants, this always reports success on a well-formed ledger;
/// `verify_events` is the general checker for rows loaded from elsewhere.
pub fn verify_chain_integrity(ledger: &Ledger, source_system: &str) -> (r: (bool, String))
    requires
        ledger.wf(),
    ensures
        r.0,
        ledger.chain_events(source_system@).len() == 0 ==> r.1@ == "No events to verify"@,
        ledger.chain_events(source_system@).len() > 0 ==> r.1@ == "Chain verified: "@ + dec_seq(
            ledger.chain_events(source_system@).len() as u64,
        ) + " events"@,
{
    proof {
        lemma_wf_chain_verifies(*ledger, source_system@);
    }
    let name = String::from_str(source_system);
    match ledger.find_chain_index(&name) {
        Option::Some(k) => {
            proof {
                lemma_chain_events_at(*ledger, k as int);
            }
            verify_events(&ledger.chains[k].events, ledger.seal_salt.as_str())
        },
        Option::None => {
            proof {
                lemma_no_chain_no_events(*ledger, source_system@);
            }
            (true, String::from_str("No events to verify"))
        },
    }
}

/// How many distinct source systems hold at least one sealed event: the
/// figure the listing endpoint reports as "merkleRoots".
pub open spec fn chain_sealed(c: Chain) -> bool {
    exists|i: int|
        0 <= i < c.events@.len() && ((#[trigger] c.events@[i]).nexus_seal matches Option::Some(s)
            && s@.len() > 0)
}

pub open spec fn count_sealed(chains: Seq<Chain>) -> int
    decreases chains.len(),
{
    if chains.len() == 0 {
        0int
    } else {
        count_sealed(chains.drop_last()) + if chain_sealed(chains.last()) {
            1int
        } else {
            0int
        }
    }
}

pub fn count_sealed_chain_roots(ledger: &Ledger) -> (r: usize)
    ensures
        r == count_sealed(ledger.chains@),
{
    let mut count: usize = 0;
    let mut k: usize = 0;
    while k < ledger.chains.len()
        invariant
            k <= ledger.chains@.len(),
            count == count_sealed(ledger.chains@.take(k as int)),
            count <= k,
        decreases ledger.chains@.len() - k,
    {
        let chain = &ledger.chains[k];
        let mut sealed = false;
        let mut i: usize = 0;
        while i < chain.events.len()
            invariant
                i <= chain.events@.len(),
                sealed == exists|j: int|
                    0 <= j < i && ((#[trigger] chain.events@[j]).nexus_seal matches Option::Some(
                        s,
                    ) && s@.len() > 0),
            decreases chain.events@.len() - i,
        {
            match &chain.events[i].nexus_seal {
                Option::Some(s) => {
                    if !s.as_str().is_empty() {
                        sealed = true;
                    }
                },
                Option::None => {},
            }
            i = i + 1;
        }
        proof {
            assert(sealed == chain_sealed(ledger.chains@[k as int]));
            assert(ledger.chains@.take(k + 1 as int).drop_last() =~= ledger.chains@.take(
                k as int,
            ));
            assert(ledger.chains@.take(k + 1 as int).last() == ledger.chains@[k as int]);
        }
        if sealed {
            count = count + 1;
        }
        k = k + 1;
    }
    proof {
        assert(ledger.chains@.take(ledger.chains@.len() as int) =~= ledger.chains@);
    }
    count
}

// ---- the chain laws ----

/// Chain density: within any source system, sequence numbers run densely
/// from 1 in recording order.
pub proof fn lemma_chain_density(l: Ledger, name: Seq<char>, i: int)
    requires
        l.wf(),
        0 <= i < l.chain_events(name).len(),
    ensures
        l.chain_events(name)[i].sequence_number == i + 1,
{
    chain_events_wf(l, name, i);
}

/// Chain linkage: every event's previous_hash is the payload hash of its
/// predecessor, and the first event links to the empty string.
pub proof fn lemma_chain_linkage(l: Ledger, name: Seq<char>, i: int)
    requires
        l.wf(),
        0 <= i < l.chain_events(name).len(),
    ensures
        i > 0 ==> l.chain_events(name)[i].previous_hash@ == l.chain_events(name)[
            i - 1
        ].payload_hash@,
        i == 0 ==> l.chain_events(name)[i].previous_hash@ == Seq::<char>::empty(),
{
    chain_events_wf(l, name, i);
}

/// Seal integrity: every event's seal is the hash of its payload hash, its
/// previous hash and the salt.
pub proof fn lemma_seal_integrity(l: Ledger, name: Seq<char>, i: int)
    requires
        l.wf(),
        0 <= i < l.chain_events(name).len(),
    ensures
        seal_ok(l.chain_events(name)[i], l.seal_salt@),
        payload_hash_ok(l.chain_events(name)[i]),
{
    chain_events_wf(l, name, i);
}

proof fn chain_events_wf(l: Ledger, name: Seq<char>, i: int)
    requires
        l.wf(),
        0 <= i < l.chain_events(name).len(),
    ensures
        event_wf_at(l.chain_events(name), i, l.chain_events(name)[i].source_system@, l.seal_salt@),
{
    assert(l.spec_has_chain(name));
    let k = choose|k: int|
        0 <= k < l.chains@.len() && (#[trigger] l.chains@[k]).source_system@ == name;
    assert(chain_wf(l.chains@[k], l.seal_salt@));
    assert(event_wf_at(l.chains@[k].events@, i, l.chains@[k].source_system@, l.seal_salt@));
}

// ---- finding an event by id ----

/// The first event with this id within one chain's events.
pub open spec fn find_in_events(events: Seq<EvidenceEvent>, eid: Seq<char>) -> Option<
    EvidenceEvent,
>
    decreases events.len(),
{
    if events.len() == 0 {
        Option::None
    } else if events[0].event_id@ == eid {
        Option::Some(events[0])
    } else {
        find_in_events(events.skip(1), eid)
    }
}

/// The first event with this id, chains searched in storage order.
pub open spec fn spec_find_event(chains: Seq<Chain>, eid: Seq<char>) -> Option<EvidenceEvent>
    decreases chains.len(),
{
    if chains.len() == 0 {
        Option::None
    } else {
        match find_in_events(chains[0].events@, eid) {
            Option::Some(e) => Option::Some(e),
            Option::None => spec_find_event(chains.skip(1), eid),
        }
    }
}

proof fn lemma_find_in_events_skip(events: Seq<EvidenceEvent>, eid: Seq<char>, i: int)
    requires
        0 <= i <= events.len(),
        forall|j: int| 0 <= j < i ==> (#[trigger] events[j]).event_id@ != eid,
    ensures
        find_in_events(events, eid) == find_in_events(events.skip(i), eid),
    decreases i,
{
    if i == 0 {
        assert(events.skip(0) =~= events);
    } else {
        assert(events[0].event_id@ != eid);
        assert forall|j: int| 0 <= j < i - 1 implies (#[trigger] events.skip(1)[j]).event_id@
            != eid by {
            assert(events.skip(1)[j] == events[j + 1]);
        }
        lemma_find_in_events_skip(events.skip(1), eid, i - 1);
        assert(events.skip(1).skip(i - 1) =~= events.skip(i));
    }
}

proof fn lemma_find_event_skip(chains: Seq<Chain>, eid: Seq<char>, k: int)
    requires
        0 <= k <= chains.len(),
        forall|j: int|
            0 <= j < k ==> find_in_events((#[trigger] chains[j]).events@, eid) is None,
    ensures
        spec_find_event(chains, eid) == spec_find_event(chains.skip(k), eid),
    decreases k,
{
    if k == 0 {
        assert(chains.skip(0) =~= chains);
    } else {
        assert(find_in_events(chains[0].events@, eid) is None);
        assert forall|j: int| 0 <= j < k - 1 implies find_in_events(
            (#[trigger] chains.skip(1)[j]).events@,
            eid,
        ) is None by {
            assert(chains.skip(1)[j] == chains[j + 1]);
        }
        lemma_find_event_skip(chains.skip(1), eid, k - 1);
        assert(chains.skip(1).skip(k - 1) =~= chains.skip(k));
    }
}

fn find_in(events: &Vec<EvidenceEvent>, eid: &String) -> (r: Option<usize>)
    ensures
        match r {
            Option::Some(i) => i < events@.len() && find_in_events(events@, eid@)
                == Option::Some(events@[i as int]),
            Option::None => find_in_events(events@, eid@) is None,
        },
{
    let mut i: usize = 0;
    while i < events.len()
        invariant
            i <= events@.len(),
            forall|j: int| 0 <= j < i ==> (#[trigger] events@[j]).event_id@ != eid@,
        decreases events@.len() - i,
    {
        if events[i].event_id == *eid {
            proof {
                lemma_find_in_events_skip(events@, eid@, i as int);
                assert(events@.skip(i as int)[0] == events@[i as int]);
            }
            return Option::Some(i);
        }
        i = i + 1;
    }
    proof {
        lemma_find_in_events_skip(events@, eid@, events@.len() as int);
        assert(events@.skip(events@.len() as int) =~= Seq::<EvidenceEvent>::empty());
    }
    Option::None
}

/// Finds the first event carrying this id anywhere in the ledger: how a
/// review's referenced evidence event is looked up again.
pub fn find_event<'a>(ledger: &'a Ledger, event_id: &str) -> (r: Option<&'a EvidenceEvent>)
    ensures
        match r {
            Option::Some(e) => spec_find_event(ledger.chains@, event_id@) == Option::Some(*e),
            Option::None => spec_find_event(ledger.chains@, event_id@) is None,
        },
{
    let eid = String::from_str(event_id);
    let mut k: usize = 0;
    while k < ledger.chains.len()
        invariant
            k <= ledger.chains@.len(),
            eid@ == event_id@,
            forall|j: int|
                0 <= j < k ==> find_in_events((#[trigger] ledger.chains@[j]).events@, event_id@)
                    is None,
        decreases ledger.chains@.len() - k,
    {
        match find_in(&ledger.chains[k].events, &eid) {
            Option::Some(i) => {
                proof {
                    lemma_find_event_skip(ledger.chains@, event_id@, k as int);
                    assert(ledger.chains@.skip(k as int)[0] == ledger.chains@[k as int]);
                }
                return Option::Some(&ledger.chains[k].events[i]);
            },
            Option::None => {},
        }
        k = k + 1;
    }
    proof {
        lemma_find_event_skip(ledger.chains@, event_id@, ledger.chains@.len() as int);
        assert(ledger.chains@.skip(ledger.chains@.len() as int) =~= Seq::<Chain>::empty());
    }
    Option::None
}

// ---- the filtered listing ----

/// The free-text search of the listing: a case-insensitive substring match
/// over the event id, the correlation id, the event type, or the payload's
/// canonical serialization (the stored document as text).
pub open spec fn search_matches(e: EvidenceEvent, q: Seq<char>) -> bool {
    ||| is_substring_ci(e.event_id@, q)
    ||| is_substring_ci(e.correlation_id@, q)
    ||| is_substring_ci(e.event_type@, q)
    ||| is_substring_ci(canon_payload(payload_model(e.payload)), q)
}

pub open spec fn text_field_matches(
    e: EvidenceEvent,
    key: Seq<char>,
    q: Seq<char>,
) -> bool {
    match lookup_value(payload_model(e.payload), key) {
        Option::Some(v) => v matches ValueModel::Text(s) && is_substring_ci(s, q),
        Option::None => false,
    }
}

/// The destination filter: a case-insensitive substring match over the
/// payload's destination country, under either spelling of the key.
pub open spec fn destination_matches(e: EvidenceEvent, q: Seq<char>) -> bool {
    text_field_matches(e, "destination_country"@, q) || text_field_matches(
        e,
        "destinationCountry"@,
        q,
    )
}

/// Whether one event passes every given filter.
pub open spec fn event_passes(
    e: EvidenceEvent,
    severity: Option<Seq<char>>,
    event_type: Option<Seq<char>>,
    search: Option<Seq<char>>,
    destination_country: Option<Seq<char>>,
) -> bool {
    &&& match severity {
        Option::Some(s) => e.severity@ == s,
        Option::None => true,
    }
    &&& match event_type {
        Option::Some(t) => e.event_type@ == t,
        Option::None => true,
    }
    &&& match search {
        Option::Some(q) => search_matches(e, q),
        Option::None => true,
    }
    &&& match destination_country {
        Option::Some(q) => destination_matches(e, q),
        Option::None => true,
    }
}

/// All stored events, chains in storage order.
pub open spec fn all_events(chains: Seq<Chain>) -> Seq<EvidenceEvent>
    decreases chains.len(),
{
    if chains.len() == 0 {
        Seq::<EvidenceEvent>::empty()
    } else {
        chains[0].events@ + all_events(chains.skip(1))
    }
}

/// The subsequence of events passing the filters, in order.
pub open spec fn passing_events(
    events: Seq<EvidenceEvent>,
    severity: Option<Seq<char>>,
    event_type: Option<Seq<char>>,
    search: Option<Seq<char>>,
    destination_country: Option<Seq<char>>,
) -> Seq<EvidenceEvent>
    decreases events.len(),
{
    if events.len() == 0 {
        Seq::<EvidenceEvent>::empty()
    } else {
        (if event_passes(events[0], severity, event_type, search, destination_country) {
            seq![events[0]]
        } else {
            Seq::<EvidenceEvent>::empty()
        }) + passing_events(events.skip(1), severity, event_type, search, destination_country)
    }
}

proof fn lemma_all_events_snoc(chains: Seq<Chain>, c: Chain)
    ensures
        all_events(chains.push(c)) == all_events(chains) + c.events@,
    decreases chains.len(),
{
    let p = chains.push(c);
    if chains.len() == 0 {
        assert(p[0] == c);
        assert(p.skip(1) =~= Seq::<Chain>::empty());
        assert(all_events(p) == c.events@ + all_events(Seq::<Chain>::empty()));
        assert(c.events@ + Seq::<EvidenceEvent>::empty() =~= c.events@);
        assert(all_events(chains) + c.events@ =~= c.events@);
    } else {
        assert(p[0] == chains[0]);
        assert(p.skip(1) =~= chains.skip(1).push(c));
        lemma_all_events_snoc(chains.skip(1), c);
        assert(all_events(p) == chains[0].events@ + (all_events(chains.skip(1)) + c.events@));
        assert(chains[0].events@ + (all_events(chains.skip(1)) + c.events@) =~= (
        chains[0].events@ + all_events(chains.skip(1))) + c.events@);
        assert(all_events(chains) == chains[0].events@ + all_events(chains.skip(1)));
    }
}

proof fn lemma_passing_snoc(
    events: Seq<EvidenceEvent>,
    e: EvidenceEvent,
    severity: Option<Seq<char>>,
    event_type: Option<Seq<char>>,
    search: Option<Seq<char>>,
    destination_country: Option<Seq<char>>,
)
    ensures
        passing_events(events.push(e), severity, event_type, search, destination_country)
            == passing_events(events, severity, event_type, search, destination_country) + (
        if event_passes(e, severity, event_type, search, destination_country) {
            seq![e]
        } else {
            Seq::<EvidenceEvent>::empty()
        }),
    decreases events.len(),
{
    let p = events.push(e);
    if events.len() == 0 {
        assert(p[0] == e);
        assert(p.skip(1) =~= Seq::<EvidenceEvent>::empty());
        assert(passing_events(
            Seq::<EvidenceEvent>::empty(),
            severity,
            event_type,
            search,
            destination_country,
        ) == Seq::<EvidenceEvent>::empty());
        if event_passes(e, severity, event_type, search, destination_country) {
            assert(passing_events(p, severity, event_type, search, destination_country) == seq![e]
                + passing_events(
                Seq::<EvidenceEvent>::empty(),
                severity,
                event_type,
                search,
                destination_country,
            ));
            assert(seq![e] + Seq::<EvidenceEvent>::empty() =~= seq![e]);
            assert(passing_events(events, severity, event_type, search, destination_country)
                + seq![e] =~= seq![e]);
        } else {
            assert(passing_events(p, severity, event_type, search, destination_country)
                == Seq::<EvidenceEvent>::empty() + passing_events(
                Seq::<EvidenceEvent>::empty(),
                severity,
                event_type,
                search,
                destination_country,
            ));
            assert(Seq::<EvidenceEvent>::empty() + Seq::<EvidenceEvent>::empty()
                =~= Seq::<EvidenceEvent>::empty());
            assert(passing_events(events, severity, event_type, search, destination_country)
                + Seq::<EvidenceEvent>::empty() =~= Seq::<EvidenceEvent>::empty());
        }
    } else {
        assert(p[0] == events[0]);
        assert(p.skip(1) =~= events.skip(1).push(e));
        lemma_passing_snoc(events.skip(1), e, severity, event_type, search, destination_country);
        let rest = passing_events(
            events.skip(1),
            severity,
            event_type,
            search,
            destination_country,
        );
        let tail = if event_passes(e, severity, event_type, search, destination_country) {
            seq![e]
        } else {
            Seq::<EvidenceEvent>::empty()
        };
        let first = if event_passes(events[0], severity, event_type, search, destination_country) {
            seq![events[0]]
        } else {
            Seq::<EvidenceEvent>::empty()
        };
        assert(passing_events(p, severity, event_type, search, destination_country) == first + (
        rest + tail));
        assert(first + (rest + tail) =~= (first + rest) + tail);
        assert(passing_events(events, severity, event_type, search, destination_country) == first
            + rest);
    }
}

pub open spec fn opt_str_view(o: Option<&str>) -> Option<Seq<char>> {
    match o {
        Option::Some(s) => Option::Some(s@),
        Option::None => Option::None,
    }
}

fn event_passes_filters(
    e: &EvidenceEvent,
    severity: Option<&str>,
    event_type: Option<&str>,
    search: Option<&str>,
    destination_country: Option<&str>,
) -> (r: bool)
    ensures
        r == event_passes(
            *e,
            opt_str_view(severity),
            opt_str_view(event_type),
            opt_str_view(search),
            opt_str_view(destination_country),
        ),
{
    let severity_ok = match severity {
        Option::Some(s) => e.severity == String::from_str(s),
        Option::None => true,
    };
    if !severity_ok {
        return false;
    }
    let type_ok = match event_type {
        Option::Some(t) => e.event_type == String::from_str(t),
        Option::None => true,
    };
    if !type_ok {
        return false;
    }
    let search_ok = match search {
        Option::Some(q) => {
            if contains_ci(e.event_id.as_str(), q) || contains_ci(e.correlation_id.as_str(), q)
                || contains_ci(e.event_type.as_str(), q) {
                true
            } else {
                let canonical = canonical_payload(&e.payload);
                contains_ci(canonical.as_str(), q)
            }
        },
        Option::None => true,
    };
    if !search_ok {
        return false;
    }
    match destination_country {
        Option::Some(q) => {
            let under_snake = match crate::payload::find_value(&e.payload, "destination_country")
                {
                Option::Some(v) => match v {
                    crate::payload::PayloadValue::Text(s) => contains_ci(s.as_str(), q),
                    _ => false,
                },
                Option::None => false,
            };
            if under_snake {
                true
            } else {
                match crate::payload::find_value(&e.payload, "destinationCountry") {
                    Option::Some(v) => match v {
                        crate::payload::PayloadValue::Text(s) => contains_ci(s.as_str(), q),
                        _ => false,
                    },
                    Option::None => false,
                }
            }
        },
        Option::None => true,
    }
}

/// The filtered listing: walks every chain in storage order, keeps the
/// events passing all given filters, and returns copies of the first
/// `limit` of them together with the total number passing. The original
/// store ordered the listing by insertion time globally; here events come
/// chain by chain, each chain in insertion order.
pub fn list_events(
    ledger: &Ledger,
    severity: Option<&str>,
    event_type: Option<&str>,
    search: Option<&str>,
    destination_country: Option<&str>,
    limit: usize,
) -> (r: (Vec<EvidenceEvent>, usize))
    ensures
        ({
            let passing = passing_events(
                all_events(ledger.chains@),
                opt_str_view(severity),
                opt_str_view(event_type),
                opt_str_view(search),
                opt_str_view(destination_country),
            );
            &&& r.1 <= passing.len()
            &&& passing.len() < usize::MAX ==> r.1 == passing.len()
            &&& r.0@.len() == if passing.len() < limit {
                passing.len() as int
            } else {
                limit as int
            }
            &&& forall|j: int| 0 <= j < r.0@.len() ==> event_matches(#[trigger] r.0@[j], passing[j])
        }),
{
    let ghost sev = opt_str_view(severity);
    let ghost ety = opt_str_view(event_type);
    let ghost srch = opt_str_view(search);
    let ghost dest = opt_str_view(destination_country);
    let mut listed: Vec<EvidenceEvent> = Vec::new();
    let mut total: usize = 0;
    let ghost mut flat: Seq<EvidenceEvent> = Seq::<EvidenceEvent>::empty();
    let mut k: usize = 0;
    while k < ledger.chains.len()
        invariant
            k <= ledger.chains@.len(),
            sev == opt_str_view(severity),
            ety == opt_str_view(event_type),
            srch == opt_str_view(search),
            dest == opt_str_view(destination_country),
            flat == all_events(ledger.chains@.take(k as int)),
            total <= passing_events(flat, sev, ety, srch, dest).len(),
            passing_events(flat, sev, ety, srch, dest).len() < usize::MAX ==> total
                == passing_events(flat, sev, ety, srch, dest).len(),
            listed@.len() == if passing_events(flat, sev, ety, srch, dest).len() < limit {
                passing_events(flat, sev, ety, srch, dest).len() as int
            } else {
                limit as int
            },
            forall|j: int|
                0 <= j < listed@.len() ==> event_matches(
                    #[trigger] listed@[j],
                    passing_events(flat, sev, ety, srch, dest)[j],
                ),
        decreases ledger.chains@.len() - k,
    {
        let chain = &ledger.chains[k];
        let mut i: usize = 0;
        while i < chain.events.len()
            invariant
                k < ledger.chains@.len(),
                sev == opt_str_view(severity),
                ety == opt_str_view(event_type),
                srch == opt_str_view(search),
                dest == opt_str_view(destination_country),
                chain == &ledger.chains@[k as int],
                i <= chain.events@.len(),
                flat == all_events(ledger.chains@.take(k as int)) + chain.events@.take(i as int),
                total <= passing_events(flat, sev, ety, srch, dest).len(),
                passing_events(flat, sev, ety, srch, dest).len() < usize::MAX ==> total
                    == passing_events(flat, sev, ety, srch, dest).len(),
                listed@.len() == if passing_events(flat, sev, ety, srch, dest).len() < limit {
                    passing_events(flat, sev, ety, srch, dest).len() as int
                } else {
                    limit as int
                },
                forall|j: int|
                    0 <= j < listed@.len() ==> event_matches(
                        #[trigger] listed@[j],
                        passing_events(flat, sev, ety, srch, dest)[j],
                    ),
            decreases chain.events@.len() - i,
        {
            let e = &chain.events[i];
            let passes = event_passes_filters(e, severity, event_type, search, destination_country);
            proof {
                lemma_passing_snoc(flat, chain.events@[i as int], sev, ety, srch, dest);
                assert(chain.events@.take(i + 1 as int) =~= chain.events@.take(i as int).push(
                    chain.events@[i as int],
                ));
                if passes {
                    assert(passing_events(flat.push(chain.events@[i as int]), sev, ety, srch, dest)
                        =~= passing_events(flat, sev, ety, srch, dest).push(
                        chain.events@[i as int],
                    ));
                } else {
                    assert(passing_events(flat.push(chain.events@[i as int]), sev, ety, srch, dest)
                        =~= passing_events(flat, sev, ety, srch, dest));
                }
            }
            if passes {
                if listed.len() < limit {
                    listed.push(duplicate_event(e));
                }
                if total < usize::MAX {
                    total = total + 1;
                }
            }
            proof {
                flat = flat.push(chain.events@[i as int]);
            }
            i = i + 1;
        }
        proof {
            assert(chain.events@.take(chain.events@.len() as int) =~= chain.events@);
            lemma_all_events_snoc(ledger.chains@.take(k as int), ledger.chains@[k as int]);
            assert(ledger.chains@.take(k + 1 as int) =~= ledger.chains@.take(k as int).push(
                ledger.chains@[k as int],
            ));
        }
        k = k + 1;
    }
    proof {
        assert(ledger.chains@.take(ledger.chains@.len() as int) =~= ledger.chains@);
    }
    (listed, total)
}

} // verus!
