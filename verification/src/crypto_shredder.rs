//! The crypto-shred erasure engine. An erasure record is envelope-encrypted
//! under a fresh DEK, the DEK is wrapped under the master key and stored,
//! and the stored wrapping is immediately overwritten with a destroyed
//! marker: after that, no holder of the system's persistent state can
//! recover the record.
use vstd::prelude::*;

use crate::crypto::{
    aes256_gcm_encrypt, aes256_gcm_seal, aes_gcm_plaintext_limit, random_bytes, uuid_simple,
};
use crate::evidence::{create_event, CreateEventParams, Ledger};
use crate::payload::{payload_model, Payload, PayloadValue, ValueModel};
use crate::text::{clone_string, is_lower_hex_digit, seq_views, vec_str1};

verus! {

use vstd::string::StrSliceExecFns;
use vstd::string::StringExecFns;

/// Right-pads key material with zero bytes to 32 bytes, or truncates
/// longer material; the master wrapping key is always exactly 32 bytes.
pub fn master_key_bytes(material: &[u8]) -> (key: Vec<u8>)
    ensures
        key@.len() == 32,
        forall|i: int|
            0 <= i < 32 ==> key@[i] == if i < material@.len() {
                material@[i]
            } else {
                0u8
            },
{
    let mut key: Vec<u8> = Vec::new();
    let mut i: usize = 0;
    while i < 32
        invariant
            i <= 32,
            key@.len() == i,
            forall|j: int|
                0 <= j < i ==> key@[j] == if j < material@.len() {
                    material@[j]
                } else {
                    0u8
                },
        decreases 32 - i,
    {
        if i < material.len() {
            key.push(material[i]);
        } else {
            key.push(0u8);
        }
        i = i + 1;
    }
    key
}

#[derive(Clone, Copy, PartialEq, Eq, Structural, Debug)]
pub enum ErasureError {
    InvalidConfirmation,
    CryptoFailure,
    EvidenceFailure,
}

/// What `encrypt_payload` hands back: the ciphertext and its nonce, under a
/// DEK that existed only in memory and is already gone.
#[derive(Debug)]
pub struct EncryptedLog {
    pub log_id: String,
    pub ciphertext: Vec<u8>,
    pub nonce: Vec<u8>,
}

/// One stored wrapped key, or its tombstone once shredded.
#[derive(Debug)]
pub struct EncryptedLogKey {
    pub log_id: String,
    pub wrapped_dek: Vec<u8>,
    pub created_at: u64,
    pub shredded_at: Option<u64>,
}

#[derive(Debug)]
pub struct KeyStore {
    pub rows: Vec<EncryptedLogKey>,
}

impl KeyStore {
    pub fn new() -> (k: KeyStore)
        ensures
            k.rows@.len() == 0,
    {
        KeyStore { rows: Vec::new() }
    }

    pub fn count(&self) -> (n: usize)
        ensures
            n == self.rows@.len(),
    {
        self.rows.len()
    }

    pub fn get(&self, i: usize) -> (r: &EncryptedLogKey)
        requires
            i < self.rows@.len(),
        ensures
            *r == self.rows@[i as int],
    {
        &self.rows[i]
    }
}

/// The canonical destroyed marker a shredded row holds in place of its
/// wrapped key: a single zero byte.
pub open spec fn shred_marker() -> Seq<u8> {
    seq![0u8]
}

fn make_log_id() -> (r: String)
    ensures
        r@.len() == 36,
        r@.take(4) == "log_"@,
        forall|i: int| 4 <= i < 36 ==> is_lower_hex_digit(#[trigger] r@[i]),
{
    proof {
        reveal_strlit("log_");
    }
    let simple = uuid_simple();
    let r = String::from_str("log_").concat(simple.as_str());
    proof {
        assert(r@.take(4) =~= "log_"@);
        assert forall|i: int| 4 <= i < 36 implies is_lower_hex_digit(#[trigger] r@[i]) by {
            assert(r@[i] == simple@[i - 4]);
        }
    }
    r
}

fn copy_bytes(src: &Vec<u8>) -> (r: Vec<u8>)
    ensures
        r@ == src@,
{
    let mut r: Vec<u8> = Vec::new();
    let mut i: usize = 0;
    while i < src.len()
        invariant
            i <= src@.len(),
            r@ =~= src@.take(i as int),
        decreases src@.len() - i,
    {
        r.push(src[i]);
        i = i + 1;
    }
    proof {
        assert(src@.take(src@.len() as int) =~= src@);
    }
    r
}

/// Envelope-encrypts a record under a fresh 256-bit DEK with a fresh 96-bit
/// nonce. The DEK is dropped on return: only someone who also wrapped it
/// can ever decrypt the ciphertext. The one input refused is a record
/// beyond the cipher's size limit; anything smaller is owed success.
pub fn encrypt_payload(payload: &str) -> (r: Result<EncryptedLog, ErasureError>)
    ensures
        vstd::utf8::encode_utf8(payload@).len() <= aes_gcm_plaintext_limit() ==> r is Ok,
        r matches Result::Err(e) ==> e == ErasureError::CryptoFailure && vstd::utf8::encode_utf8(
            payload@,
        ).len() > aes_gcm_plaintext_limit(),
        r matches Result::Ok(el) ==> ({
            &&& el.log_id@.len() == 36
            &&& el.log_id@.take(4) == "log_"@
            &&& forall|i: int| 4 <= i < 36 ==> is_lower_hex_digit(#[trigger] el.log_id@[i])
            &&& el.nonce@.len() == 12
            &&& exists|dek: Seq<u8>|
                dek.len() == 32 && el.ciphertext@ == aes256_gcm_seal(
                    dek,
                    el.nonce@,
                    vstd::utf8::encode_utf8(payload@),
                )
        }),
{
    let bytes = payload.as_bytes_vec();
    if bytes.len() as u64 > 0xF_FFFF_FFE0u64 {
        return Result::Err(ErasureError::CryptoFailure);
    }
    let dek = random_bytes(32);
    let nonce = random_bytes(12);
    let ciphertext = aes256_gcm_encrypt(dek.as_slice(), nonce.as_slice(), bytes.as_slice())
        .unwrap();
    let log_id = make_log_id();
    Result::Ok(EncryptedLog { log_id, ciphertext, nonce })
}

/// Persists a wrapped DEK against a log id.
pub fn store_wrapped_key(keys: &mut KeyStore, log_id: &str, wrapped_dek: &Vec<u8>, now: u64)
    ensures
        final(keys).rows@.len() == old(keys).rows@.len() + 1,
        final(keys).rows@.take(old(keys).rows@.len() as int) == old(keys).rows@,
        ({
            let row = final(keys).rows@.last();
            &&& row.log_id@ == log_id@
            &&& row.wrapped_dek@ == wrapped_dek@
            &&& row.created_at == now
            &&& row.shredded_at is None
        }),
{
    let row = EncryptedLogKey {
        log_id: String::from_str(log_id),
        wrapped_dek: copy_bytes(wrapped_dek),
        created_at: now,
        shredded_at: Option::None,
    };
    keys.rows.push(row);
    proof {
        assert(keys.rows@.take(old(keys).rows@.len() as int) =~= old(keys).rows@);
    }
}

/// Shreds the first unshredded row with this log id: the wrapped key is
/// overwritten with the destroyed marker and the shred time is stamped.
/// The original wrapping is never written anywhere else, so it is gone.
pub fn shred_key(keys: &mut KeyStore, log_id: &str, now: u64) -> (shredded: bool)
    ensures
        shredded == exists|i: int|
            0 <= i < old(keys).rows@.len() && (#[trigger] old(keys).rows@[i]).log_id@ == log_id@
                && old(keys).rows@[i].shredded_at is None,
        !shredded ==> final(keys).rows@ == old(keys).rows@,
        shredded ==> exists|i: int|
            {
                &&& 0 <= i < old(keys).rows@.len()
                &&& (#[trigger] old(keys).rows@[i]).log_id@ == log_id@
                &&& old(keys).rows@[i].shredded_at is None
                &&& final(keys).rows@ =~= old(keys).rows@.update(
                    i,
                    EncryptedLogKey {
                        log_id: old(keys).rows@[i].log_id,
                        wrapped_dek: final(keys).rows@[i].wrapped_dek,
                        created_at: old(keys).rows@[i].created_at,
                        shredded_at: Option::Some(now),
                    },
                )
                &&& final(keys).rows@[i].wrapped_dek@ == shred_marker()
            },
{
    let id_string = String::from_str(log_id);
    let mut i: usize = 0;
    while i < keys.rows.len()
        invariant
            i <= keys.rows@.len(),
            id_string@ == log_id@,
            keys.rows@ == old(keys).rows@,
            forall|j: int|
                0 <= j < i ==> !((#[trigger] keys.rows@[j]).log_id@ == log_id@
                    && keys.rows@[j].shredded_at is None),
        decreases keys.rows@.len() - i,
    {
        let hit = keys.rows[i].log_id == id_string && keys.rows[i].shredded_at.is_none();
        if hit {
            let mut marker: Vec<u8> = Vec::new();
            marker.push(0u8);
            proof {
                assert(marker@ =~= shred_marker());
            }
            keys.rows[i].wrapped_dek = marker;
            keys.rows[i].shredded_at = Option::Some(now);
            proof {
                assert(keys.rows@ =~= old(keys).rows@.update(
                    i as int,
                    EncryptedLogKey {
                        log_id: old(keys).rows@[i as int].log_id,
                        wrapped_dek: keys.rows@[i as int].wrapped_dek,
                        created_at: old(keys).rows@[i as int].created_at,
                        shredded_at: Option::Some(now),
                    },
                ));
            }
            return true;
        }
        i = i + 1;
    }
    false
}

/// Shreds the row at a known position: the erasure path stores its fresh
/// row and destroys that very row, whatever else the store holds.
fn shred_at(keys: &mut KeyStore, i: usize, now: u64)
    requires
        i < old(keys).rows@.len(),
    ensures
        final(keys).rows@.len() == old(keys).rows@.len(),
        forall|j: int|
            0 <= j < old(keys).rows@.len() && j != i ==> final(keys).rows@[j] == old(keys).rows@[j],
        final(keys).rows@[i as int].log_id == old(keys).rows@[i as int].log_id,
        final(keys).rows@[i as int].created_at == old(keys).rows@[i as int].created_at,
        final(keys).rows@[i as int].wrapped_dek@ == shred_marker(),
        final(keys).rows@[i as int].shredded_at == Option::Some(now),
{
    let mut marker: Vec<u8> = Vec::new();
    marker.push(0u8);
    proof {
        assert(marker@ =~= shred_marker());
    }
    keys.rows[i].wrapped_dek = marker;
    keys.rows[i].shredded_at = Option::Some(now);
}

/// The first stored row under a log id, if any.
pub open spec fn find_key(rows: Seq<EncryptedLogKey>, id: Seq<char>) -> Option<EncryptedLogKey>
    decreases rows.len(),
{
    if rows.len() == 0 {
        Option::None
    } else if rows[0].log_id@ == id {
        Option::Some(rows[0])
    } else {
        find_key(rows.skip(1), id)
    }
}

proof fn lemma_find_key_skip(rows: Seq<EncryptedLogKey>, id: Seq<char>, i: int)
    requires
        0 <= i <= rows.len(),
        forall|j: int| 0 <= j < i ==> (#[trigger] rows[j]).log_id@ != id,
    ensures
        find_key(rows, id) == find_key(rows.skip(i), id),
    decreases i,
{
    if i == 0 {
        assert(rows.skip(0) =~= rows);
    } else {
        assert(rows[0].log_id@ != id);
        assert forall|j: int| 0 <= j < i - 1 implies (#[trigger] rows.skip(1)[j]).log_id@
            != id by {
            assert(rows.skip(1)[j] == rows[j + 1]);
        }
        lemma_find_key_skip(rows.skip(1), id, i - 1);
        assert(rows.skip(1).skip(i - 1) =~= rows.skip(i));
    }
}

/// Whether the first row under this log id has been shredded; false when no
/// row exists.
pub fn is_shredded(keys: &KeyStore, log_id: &str) -> (r: bool)
    ensures
        r == match find_key(keys.rows@, log_id@) {
            Option::Some(row) => row.shredded_at is Some,
            Option::None => false,
        },
{
    let id_string = String::from_str(log_id);
    let mut i: usize = 0;
    while i < keys.rows.len()
        invariant
            i <= keys.rows@.len(),
            id_string@ == log_id@,
            forall|j: int| 0 <= j < i ==> (#[trigger] keys.rows@[j]).log_id@ != log_id@,
        decreases keys.rows@.len() - i,
    {
        if keys.rows[i].log_id == id_string {
            proof {
                lemma_find_key_skip(keys.rows@, log_id@, i as int);
                assert(keys.rows@.skip(i as int)[0] == keys.rows@[i as int]);
            }
            return keys.rows[i].shredded_at.is_some();
        }
        i = i + 1;
    }
    proof {
        lemma_find_key_skip(keys.rows@, log_id@, keys.rows@.len() as int);
        assert(keys.rows@.skip(keys.rows@.len() as int) =~= Seq::<EncryptedLogKey>::empty());
    }
    false
}

// ---- the shredded inventory ----

/// One source the erasure certificate reports as shredded. Sizes are held
/// in tenths of a megabyte so the figures stay exact.
#[derive(Debug)]
pub struct ShreddedSource {
    pub source: String,
    pub records: u64,
    pub size_mb_tenths: u64,
    pub method: String,
    pub status: String,
}

pub open spec fn source_ok(
    s: ShreddedSource,
    name: Seq<char>,
    records: u64,
    size_mb_tenths: u64,
) -> bool {
    &&& s.source@ == name
    &&& s.records == records
    &&& s.size_mb_tenths == size_mb_tenths
    &&& s.method@ == "Crypto-Shred (AES-256)"@
    &&& s.status@ == "SHREDDED"@
}

/// The fixed inventory reported to the client: a contract with it, not
/// live metadata.
pub open spec fn inventory_ok(items: Seq<ShreddedSource>) -> bool {
    &&& items.len() == 3
    &&& source_ok(items[0], "Main Database"@, 2341, 45)
    &&& source_ok(items[1], "Analytics Store"@, 8234, 1123)
    &&& source_ok(items[2], "Backup Archive"@, 1412, 72)
}

fn one_source(name: &str, records: u64, size_mb_tenths: u64) -> (s: ShreddedSource)
    ensures
        source_ok(s, name@, records, size_mb_tenths),
{
    ShreddedSource {
        source: String::from_str(name),
        records,
        size_mb_tenths,
        method: String::from_str("Crypto-Shred (AES-256)"),
        status: String::from_str("SHREDDED"),
    }
}

pub fn shredded_inventory() -> (items: Vec<ShreddedSource>)
    ensures
        inventory_ok(items@),
{
    let mut items: Vec<ShreddedSource> = Vec::new();
    items.push(one_source("Main Database", 2341, 45));
    items.push(one_source("Analytics Store", 8234, 1123));
    items.push(one_source("Backup Archive", 1412, 72));
    items
}

/// What an erasure returns to its caller.
#[derive(Debug)]
pub struct ErasureOutcome {
    pub log_id: String,
    pub items: Vec<ShreddedSource>,
    pub total_records: u64,
    pub total_size_mb_tenths: u64,
}

/// The erasure record that gets envelope-encrypted: who was erased, under
/// which request, on what grounds, and when.
pub open spec fn erasure_record_model(
    user_id: Seq<char>,
    request_id: Seq<char>,
    grounds: Seq<char>,
    now: u64,
) -> Seq<(Seq<char>, ValueModel)> {
    seq![
        ("userId"@, ValueModel::Text(user_id)),
        ("requestId"@, ValueModel::Text(request_id)),
        ("grounds"@, ValueModel::Text(grounds)),
        ("erasedAt"@, ValueModel::Num(now)),
    ]
}

/// The canonical byte length of the erasure record: the one quantity that
/// can make an erasure fail, when it exceeds the cipher's size limit.
pub open spec fn erasure_record_len(
    user_id: Seq<char>,
    request_id: Seq<char>,
    grounds: Seq<char>,
    now: u64,
) -> int {
    vstd::utf8::encode_utf8(
        crate::payload::canon_payload(erasure_record_model(user_id, request_id, grounds, now)),
    ).len() as int
}

/// Runs the envelope-encryption protocol for one erasure: encrypt the
/// record under a fresh DEK, wrap the DEK under the master key, persist
/// wrap nonce and wrapped DEK, then immediately shred the stored row. What
/// remains under the new log id is only the destroyed marker. Success is
/// owed unless the record itself exceeds the cipher's size limit.
pub fn execute_erasure(
    keys: &mut KeyStore,
    master_key: &Vec<u8>,
    user_id: &str,
    request_id: &str,
    grounds: &str,
    now: u64,
) -> (r: Result<ErasureOutcome, ErasureError>)
    requires
        old(keys).rows@.len() < usize::MAX,
        master_key@.len() == 32,
    ensures
        erasure_record_len(user_id@, request_id@, grounds@, now) <= aes_gcm_plaintext_limit()
            ==> r is Ok,
        r matches Result::Err(e) ==> e == ErasureError::CryptoFailure && final(keys).rows@
            == old(keys).rows@ && erasure_record_len(user_id@, request_id@, grounds@, now)
            > aes_gcm_plaintext_limit(),
        r matches Result::Ok(out) ==> ({
            let row = final(keys).rows@.last();
            &&& out.log_id@.len() == 36
            &&& out.log_id@.take(4) == "log_"@
            &&& forall|i: int| 4 <= i < 36 ==> is_lower_hex_digit(#[trigger] out.log_id@[i])
            &&& final(keys).rows@.len() == old(keys).rows@.len() + 1
            &&& final(keys).rows@.take(old(keys).rows@.len() as int) == old(keys).rows@
            &&& row.log_id@ == out.log_id@
            &&& row.wrapped_dek@ == shred_marker()
            &&& row.shredded_at == Option::Some(now)
            &&& row.created_at == now
            &&& inventory_ok(out.items@)
            &&& out.total_records == 11987
            &&& out.total_size_mb_tenths == 1240
        }),
{
    let mut record = Payload::empty();
    record.push_field("userId", PayloadValue::Text(String::from_str(user_id)));
    record.push_field("requestId", PayloadValue::Text(String::from_str(request_id)));
    record.push_field("grounds", PayloadValue::Text(String::from_str(grounds)));
    record.push_field("erasedAt", PayloadValue::Num(now));
    proof {
        assert(payload_model(record) =~= erasure_record_model(
            user_id@,
            request_id@,
            grounds@,
            now,
        ));
    }
    let record_text = crate::payload::canonical_payload(&record);
    let record_bytes = record_text.as_str().as_bytes_vec();
    if record_bytes.len() as u64 > 0xF_FFFF_FFE0u64 {
        return Result::Err(ErasureError::CryptoFailure);
    }

    // Encrypt the record under a fresh DEK. Ciphertext-at-rest lives outside
    // this engine: what matters here is that the DEK that can decrypt it is
    // about to be wrapped, stored, and destroyed.
    let dek = random_bytes(32);
    let nonce = random_bytes(12);
    let _ciphertext = aes256_gcm_encrypt(dek.as_slice(), nonce.as_slice(), record_bytes.as_slice())
        .unwrap();

    let wrap_nonce = random_bytes(12);
    let wrapped = aes256_gcm_encrypt(master_key.as_slice(), wrap_nonce.as_slice(), dek.as_slice())
        .unwrap();
    let mut combined_wrapped = copy_bytes(&wrap_nonce);
    let mut wrapped_tail = wrapped;
    combined_wrapped.append(&mut wrapped_tail);

    let log_id = make_log_id();
    store_wrapped_key(keys, log_id.as_str(), &combined_wrapped, now);
    shred_at(keys, keys.rows.len() - 1, now);

    let items = shredded_inventory();
    let total_records: u64 = 2341 + 8234 + 1412;
    let total_size_mb_tenths: u64 = 45 + 1123 + 72;
    let out = ErasureOutcome { log_id, items, total_records, total_size_mb_tenths };
    proof {
        assert(keys.rows@.take(old(keys).rows@.len() as int) =~= old(keys).rows@);
    }
    Result::Ok(out)
}

/// What a caller asks for when executing a data-subject erasure.
#[derive(Debug)]
pub struct ErasureRequest {
    pub request_id: String,
    pub user_id: String,
    pub grounds: String,
    pub confirmation: String,
}

/// What the sealed completion event of one erasure records.
pub open spec fn erasure_event_ok(
    e: crate::evidence::EvidenceEvent,
    req: ErasureRequest,
    log_id: Seq<char>,
    now: u64,
) -> bool {
    &&& e.event_type@ == "GDPR_ERASURE_COMPLETED"@
    &&& e.severity@ == "L4"@
    &&& e.source_system@ == "crypto-shredder"@
    &&& e.correlation_id@ == req.request_id@
    &&& seq_views(e.regulatory_tags@) == seq!["GDPR"@]
    &&& seq_views(e.articles@) == seq!["GDPR Art. 17"@]
    &&& payload_model(e.payload) == seq![
        ("requestId"@, ValueModel::Text(req.request_id@)),
        ("userId"@, ValueModel::Text(req.user_id@)),
        ("grounds"@, ValueModel::Text(req.grounds@)),
        ("executedAt"@, ValueModel::Num(now)),
        ("shreddedSources"@, ValueModel::Items(
            seq!["Main Database"@, "Analytics Store"@, "Backup Archive"@],
        )),
        ("cryptoLogId"@, ValueModel::Text(log_id)),
        ("totalRecords"@, ValueModel::Num(11987)),
        ("totalSizeMbTenths"@, ValueModel::Num(1240)),
    ]
    &&& e.occurred_at == now
    &&& e.recorded_at == now
}

/// Executes one erasure end to end: the confirmation must read exactly
/// "ERASE " followed by the user id, or the request is rejected untouched.
/// On success the wrapped key row is stored and shredded, and a completion
/// event of severity L4 is sealed into the "crypto-shredder" chain.
pub fn run_erasure(
    keys: &mut KeyStore,
    ledger: &mut Ledger,
    master_key: &Vec<u8>,
    req: &ErasureRequest,
    now: u64,
) -> (r: Result<ErasureOutcome, ErasureError>)
    requires
        old(keys).rows@.len() < usize::MAX,
        master_key@.len() == 32,
        old(ledger).wf(),
    ensures
        final(ledger).wf(),
        final(ledger).seal_salt == old(ledger).seal_salt,
        (r matches Result::Err(e) && e == ErasureError::InvalidConfirmation) <==> req.confirmation@
            != "ERASE "@ + req.user_id@,
        r matches Result::Err(e) && e == ErasureError::InvalidConfirmation ==> final(keys).rows@
            == old(keys).rows@ && *final(ledger) == *old(ledger),
        r matches Result::Err(e) && e == ErasureError::CryptoFailure ==> final(keys).rows@
            == old(keys).rows@ && *final(ledger) == *old(ledger) && erasure_record_len(
            req.user_id@,
            req.request_id@,
            req.grounds@,
            now,
        ) > aes_gcm_plaintext_limit(),
        req.confirmation@ == "ERASE "@ + req.user_id@ && erasure_record_len(
            req.user_id@,
            req.request_id@,
            req.grounds@,
            now,
        ) <= aes_gcm_plaintext_limit() && old(ledger).chain_events("crypto-shredder"@).len()
            < usize::MAX ==> r is Ok,
        r matches Result::Ok(out) || (r matches Result::Err(e) && e
            == ErasureError::EvidenceFailure) ==> final(keys).rows@.len() == old(keys).rows@.len() + 1 && final(keys).rows@.take(old(keys).rows@.len() as int) == old(keys).rows@ && final(keys).rows@.last().wrapped_dek@ == shred_marker() && final(keys).rows@.last().shredded_at == Option::Some(now),
        r matches Result::Ok(out) ==> ({
            let before = old(ledger).chain_events("crypto-shredder"@);
            let after = final(ledger).chain_events("crypto-shredder"@);
            &&& out.log_id@.len() == 36
            &&& out.log_id@.take(4) == "log_"@
            &&& forall|i: int| 4 <= i < 36 ==> is_lower_hex_digit(#[trigger] out.log_id@[i])
            &&& final(keys).rows@.last().log_id@ == out.log_id@
            &&& inventory_ok(out.items@)
            &&& out.total_records == 11987
            &&& out.total_size_mb_tenths == 1240
            &&& after.len() == before.len() + 1
            &&& after.take(before.len() as int) == before
            &&& erasure_event_ok(after.last(), *req, out.log_id@, now)
        }),
        r matches Result::Err(e) && e == ErasureError::EvidenceFailure ==> *final(ledger)
            == *old(ledger),
{
    let expected = String::from_str("ERASE ").concat(req.user_id.as_str());
    if !(req.confirmation == expected) {
        return Result::Err(ErasureError::InvalidConfirmation);
    }

    let out = match execute_erasure(
        keys,
        master_key,
        req.user_id.as_str(),
        req.request_id.as_str(),
        req.grounds.as_str(),
        now,
    ) {
        Result::Ok(out) => out,
        Result::Err(e) => {
            return Result::Err(ErasureError::CryptoFailure);
        },
    };

    let mut payload = Payload::empty();
    payload.push_field("requestId", PayloadValue::Text(clone_string(&req.request_id)));
    payload.push_field("userId", PayloadValue::Text(clone_string(&req.user_id)));
    payload.push_field("grounds", PayloadValue::Text(clone_string(&req.grounds)));
    payload.push_field("executedAt", PayloadValue::Num(now));
    let mut sources: Vec<String> = Vec::new();
    sources.push(String::from_str("Main Database"));
    sources.push(String::from_str("Analytics Store"));
    sources.push(String::from_str("Backup Archive"));
    proof {
        assert(sources@.map_values(|s: String| s@) =~= seq![
            "Main Database"@,
            "Analytics Store"@,
            "Backup Archive"@,
        ]);
    }
    payload.push_field("shreddedSources", PayloadValue::Items(sources));
    payload.push_field("cryptoLogId", PayloadValue::Text(clone_string(&out.log_id)));
    payload.push_field("totalRecords", PayloadValue::Num(out.total_records));
    payload.push_field("totalSizeMbTenths", PayloadValue::Num(out.total_size_mb_tenths));
    proof {
        assert(payload_model(payload) =~= seq![
            ("requestId"@, ValueModel::Text(req.request_id@)),
            ("userId"@, ValueModel::Text(req.user_id@)),
            ("grounds"@, ValueModel::Text(req.grounds@)),
            ("executedAt"@, ValueModel::Num(now)),
            ("shreddedSources"@, ValueModel::Items(
                seq!["Main Database"@, "Analytics Store"@, "Backup Archive"@],
            )),
            ("cryptoLogId"@, ValueModel::Text(out.log_id@)),
            ("totalRecords"@, ValueModel::Num(11987)),
            ("totalSizeMbTenths"@, ValueModel::Num(1240)),
        ]);
    }
    let params = CreateEventParams {
        event_type: String::from_str("GDPR_ERASURE_COMPLETED"),
        severity: String::from_str("L4"),
        source_system: String::from_str("crypto-shredder"),
        regulatory_tags: vec_str1("GDPR"),
        articles: vec_str1("GDPR Art. 17"),
        payload,
        correlation_id: Option::Some(clone_string(&req.request_id)),
        causation_id: Option::None,
        source_ip: Option::None,
        source_user_agent: Option::None,
    };
    match create_event(ledger, params, now) {
        Result::Ok(_) => Result::Ok(out),
        Result::Err(_) => Result::Err(ErasureError::EvidenceFailure),
    }
}

} // verus!
