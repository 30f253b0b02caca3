//! A compliance-enforcement core for cross-border personal-data transfers
//! and data-subject erasure requests: a jurisdiction classifier, a transfer
//! decision engine, a hash-chained evidence ledger, a human-oversight review
//! workflow, an SCC registry and a crypto-shred erasure engine. Every
//! decision produces exactly one sealed evidence event; reviews reference
//! sealed events and end in a terminal verdict; an erasure destroys its
//! wrapping key and seals its own completion.

pub mod crypto;
pub mod crypto_shredder;
pub mod evidence;
pub mod jurisdiction;
pub mod payload;
pub mod review_queue;
pub mod scc;
pub mod shield;
pub mod text;
