//! Incremental synchronization of indoor-cycling activities from a remote
//! fitness API into a local ledger.
//!
//! The library holds the verified core: the activity index (a summary ledger
//! sorted newest-first), the pagination scan with its early stop on the first
//! already-known activity, the per-activity enrichment decisions, and the
//! decoding of stream payloads. Network and filesystem plumbing lives outside
//! the library and hands plain values in and out.

pub mod activity;
pub mod errors;
pub mod index;
pub mod numfmt;
pub mod order;
pub mod storage;
pub mod streams;
pub mod sync;
pub mod token;
