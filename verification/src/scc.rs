//! The registry of standard contractual clauses: one row per registered
//! clause, keyed by partner and destination country. The decision engine
//! asks it whether an active, unexpired clause covers a transfer.
use vstd::prelude::*;

use crate::crypto::uuid_hyphenated;
use crate::evidence::Ledger;
use crate::review_queue::{
    approve_pending_reviews_for_scc, entry_decided, review_matches_scc, OversightStatus,
    ReviewQueue,
};
use crate::text::{clone_opt_string, clone_string, to_upper, upper_seq};

verus! {

use vstd::string::StringExecFns;

#[derive(Clone, Copy, PartialEq, Eq, Structural, Debug)]
pub enum SccStatus {
    Active,
    Revoked,
}

/// One registered clause. The destination country code is stored uppercased.
#[derive(Debug)]
pub struct SccRecord {
    pub id: String,
    pub partner_name: String,
    pub destination_country_code: String,
    pub status: SccStatus,
    pub expires_at: Option<u64>,
    pub registered_by: Option<String>,
    pub registered_at: u64,
    pub notes: Option<String>,
}

/// What a caller asks to register.
#[derive(Debug)]
pub struct SccRegistryRequest {
    pub partner_name: String,
    pub destination_country_code: String,
    pub expires_at: Option<u64>,
    pub notes: Option<String>,
}

#[derive(Debug)]
pub struct SccRegistry {
    pub records: Vec<SccRecord>,
}

/// An active, unexpired clause for this partner and (uppercased) country.
pub open spec fn scc_matches(
    r: SccRecord,
    partner: Seq<char>,
    code_upper: Seq<char>,
    now: u64,
) -> bool {
    &&& r.partner_name@ == partner
    &&& r.destination_country_code@ == code_upper
    &&& r.status == SccStatus::Active
    &&& match r.expires_at {
        Option::None => true,
        Option::Some(t) => t > now,
    }
}

/// Whether some registered clause covers the transfer: "active and
/// unexpired" means status is Active and the expiry, if any, lies ahead.
pub open spec fn spec_scc_active(
    reg: SccRegistry,
    partner: Seq<char>,
    code_upper: Seq<char>,
    now: u64,
) -> bool {
    exists|i: int|
        0 <= i < reg.records@.len() && scc_matches(#[trigger] reg.records@[i], partner, code_upper, now)
}

impl SccRegistry {
    pub fn new() -> (r: SccRegistry)
        ensures
            r.records@.len() == 0,
    {
        SccRegistry { records: Vec::new() }
    }

    pub fn count(&self) -> (n: usize)
        ensures
            n == self.records@.len(),
    {
        self.records.len()
    }

    pub fn get(&self, i: usize) -> (r: &SccRecord)
        requires
            i < self.records@.len(),
        ensures
            *r == self.records@[i as int],
    {
        &self.records[i]
    }
}

/// Looks a clause up for the decision engine: true exactly when an active,
/// unexpired clause is on file for this partner and country.
pub fn check_scc_exists(
    reg: &SccRegistry,
    partner_name: &str,
    destination_country_code: &str,
    now: u64,
) -> (r: bool)
    ensures
        r == spec_scc_active(*reg, partner_name@, upper_seq(destination_country_code@), now),
{
    let partner = String::from_str(partner_name);
    let code_upper = to_upper(destination_country_code);
    let mut i: usize = 0;
    while i < reg.records.len()
        invariant
            i <= reg.records@.len(),
            partner@ == partner_name@,
            code_upper@ == upper_seq(destination_country_code@),
            forall|j: int|
                0 <= j < i ==> !scc_matches(
                    #[trigger] reg.records@[j],
                    partner_name@,
                    upper_seq(destination_country_code@),
                    now,
                ),
        decreases reg.records@.len() - i,
    {
        let rec = &reg.records[i];
        if rec.partner_name == partner && rec.destination_country_code == code_upper
            && matches!(rec.status, SccStatus::Active) {
            let unexpired = match rec.expires_at {
                Option::None => true,
                Option::Some(t) => t > now,
            };
            if unexpired {
                return true;
            }
        }
        i = i + 1;
    }
    false
}

/// Registers a clause: the row is stored with the country uppercased,
/// status Active and `registered_by` "admin", and it covers the transfer at
/// once unless it is registered already expired.
pub fn register_scc_record(reg: &mut SccRegistry, req: &SccRegistryRequest, now: u64) -> (id:
    String)
    ensures
        final(reg).records@.len() == old(reg).records@.len() + 1,
        final(reg).records@.take(old(reg).records@.len() as int) == old(reg).records@,
        ({
            let rec = final(reg).records@.last();
            &&& rec.id == id
            &&& id@.len() == 36
            &&& rec.partner_name == req.partner_name
            &&& rec.destination_country_code@ == upper_seq(req.destination_country_code@)
            &&& rec.status == SccStatus::Active
            &&& rec.expires_at == req.expires_at
            &&& rec.registered_by matches Option::Some(by) && by@ == "admin"@
            &&& rec.registered_at == now
            &&& rec.notes == req.notes
        }),
        (match req.expires_at {
            Option::None => true,
            Option::Some(t) => t > now,
        }) ==> spec_scc_active(
            *final(reg),
            req.partner_name@,
            upper_seq(req.destination_country_code@),
            now,
        ),
{
    let id = uuid_hyphenated();
    let rec = SccRecord {
        id: clone_string(&id),
        partner_name: clone_string(&req.partner_name),
        destination_country_code: to_upper(req.destination_country_code.as_str()),
        status: SccStatus::Active,
        expires_at: req.expires_at,
        registered_by: Option::Some(String::from_str("admin")),
        notes: clone_opt_string(&req.notes),
        registered_at: now,
    };
    reg.records.push(rec);
    proof {
        let n = old(reg).records@.len() as int;
        assert(reg.records@.take(n) =~= old(reg).records@);
        match req.expires_at {
            Option::None => {
                assert(scc_matches(
                    reg.records@[n],
                    req.partner_name@,
                    upper_seq(req.destination_country_code@),
                    now,
                ));
            },
            Option::Some(t) => {
                if t > now {
                    assert(scc_matches(
                        reg.records@[n],
                        req.partner_name@,
                        upper_seq(req.destination_country_code@),
                        now,
                    ));
                }
            },
        }
    }
    id
}

/// Revokes a clause by id: a conditional update that only moves an Active
/// row to Revoked; false means no active row with that id existed, which the
/// callers surface as a not-found error.
pub fn revoke_scc(reg: &mut SccRegistry, id: &str) -> (revoked: bool)
    ensures
        revoked == exists|i: int|
            0 <= i < old(reg).records@.len() && (#[trigger] old(reg).records@[i]).id@ == id@
                && old(reg).records@[i].status == SccStatus::Active,
        !revoked ==> final(reg).records@ == old(reg).records@,
        revoked ==> exists|i: int|
            {
                &&& 0 <= i < old(reg).records@.len()
                &&& (#[trigger] old(reg).records@[i]).id@ == id@
                &&& old(reg).records@[i].status == SccStatus::Active
                &&& final(reg).records@ =~= old(reg).records@.update(
                    i,
                    SccRecord { status: SccStatus::Revoked, ..old(reg).records@[i] },
                )
            },
{
    let id_string = String::from_str(id);
    let mut i: usize = 0;
    while i < reg.records.len()
        invariant
            i <= reg.records@.len(),
            reg.records@ == old(reg).records@,
            id_string@ == id@,
            forall|j: int|
                0 <= j < i ==> !((#[trigger] reg.records@[j]).id@ == id@ && reg.records@[j].status
                    == SccStatus::Active),
        decreases reg.records@.len() - i,
    {
        let hit = reg.records[i].id == id_string && matches!(
            reg.records[i].status,
            SccStatus::Active,
        );
        if hit {
            reg.records[i].status = SccStatus::Revoked;
            proof {
                assert(reg.records@ =~= old(reg).records@.update(
                    i as int,
                    SccRecord { status: SccStatus::Revoked, ..old(reg).records@[i as int] },
                ));
            }
            return true;
        }
        i = i + 1;
    }
    false
}

pub open spec fn record_matches(a: SccRecord, b: SccRecord) -> bool {
    &&& a.id == b.id
    &&& a.partner_name == b.partner_name
    &&& a.destination_country_code == b.destination_country_code
    &&& a.status == b.status
    &&& a.expires_at == b.expires_at
    &&& a.registered_by == b.registered_by
    &&& a.registered_at == b.registered_at
    &&& a.notes == b.notes
}

fn duplicate_record(r: &SccRecord) -> (c: SccRecord)
    ensures
        record_matches(c, *r),
{
    SccRecord {
        id: clone_string(&r.id),
        partner_name: clone_string(&r.partner_name),
        destination_country_code: clone_string(&r.destination_country_code),
        status: r.status,
        expires_at: r.expires_at,
        registered_by: clone_opt_string(&r.registered_by),
        registered_at: r.registered_at,
        notes: clone_opt_string(&r.notes),
    }
}

/// All registered clauses, newest first (the reverse of insertion order,
/// which is registration order under a monotonic clock).
pub fn list_scc_registries(reg: &SccRegistry) -> (r: Vec<SccRecord>)
    ensures
        r@.len() == reg.records@.len(),
        forall|i: int|
            0 <= i < r@.len() ==> record_matches(
                #[trigger] r@[i],
                reg.records@[reg.records@.len() - 1 - i],
            ),
{
    let mut r: Vec<SccRecord> = Vec::new();
    let n = reg.records.len();
    let mut i: usize = 0;
    while i < n
        invariant
            n == reg.records@.len(),
            i <= n,
            r@.len() == i,
            forall|j: int|
                0 <= j < i ==> record_matches(#[trigger] r@[j], reg.records@[n - 1 - j]),
        decreases n - i,
    {
        r.push(duplicate_record(&reg.records[n - 1 - i]));
        i = i + 1;
    }
    r
}

/// Registers a clause and closes the policy loop: every pending review
/// whose transfer targeted this destination country is approved at once,
/// recorded as decided by "scc-registration", and each approval is
/// mirrored into the ledger. Returns the new clause's id.
pub fn register_scc(
    reg: &mut SccRegistry,
    queue: &mut ReviewQueue,
    ledger: &mut Ledger,
    req: &SccRegistryRequest,
    now: u64,
) -> (id: String)
    requires
        old(queue).wf(),
        old(ledger).wf(),
    ensures
        final(queue).wf(),
        final(ledger).wf(),
        final(ledger).seal_salt == old(ledger).seal_salt,
        final(reg).records@.len() == old(reg).records@.len() + 1,
        final(reg).records@.take(old(reg).records@.len() as int) == old(reg).records@,
        ({
            let rec = final(reg).records@.last();
            &&& rec.id == id
            &&& id@.len() == 36
            &&& rec.partner_name == req.partner_name
            &&& rec.destination_country_code@ == upper_seq(req.destination_country_code@)
            &&& rec.status == SccStatus::Active
            &&& rec.expires_at == req.expires_at
            &&& rec.registered_at == now
        }),
        (match req.expires_at {
            Option::None => true,
            Option::Some(t) => t > now,
        }) ==> spec_scc_active(
            *final(reg),
            req.partner_name@,
            upper_seq(req.destination_country_code@),
            now,
        ),
        final(queue).entries@.len() == old(queue).entries@.len(),
        forall|j: int|
            0 <= j < old(queue).entries@.len() && !review_matches_scc(
                #[trigger] old(queue).entries@[j],
                *old(ledger),
                req.destination_country_code@,
            ) ==> final(queue).entries@[j] == old(queue).entries@[j],
        forall|j: int|
            0 <= j < old(queue).entries@.len() && review_matches_scc(
                #[trigger] old(queue).entries@[j],
                *old(ledger),
                req.destination_country_code@,
            ) ==> entry_decided(
                final(queue).entries@[j],
                old(queue).entries@[j],
                OversightStatus::Approved,
                "scc-registration"@,
                "SCC registered for this destination"@,
                now,
            ),
{
    let id = register_scc_record(reg, req, now);
    approve_pending_reviews_for_scc(queue, ledger, req.destination_country_code.as_str(), now);
    id
}

} // verus!
