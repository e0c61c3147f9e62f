//! Tamashii: a local file-integrity tracker.
//!
//! Files are registered with a content digest and a metadata snapshot;
//! re-hashing the same files later detects modification. This crate holds
//! the record model, the validating builder, the persisted store with its
//! textual codec, and the compare-and-report verification engine.

use vstd::prelude::*;

mod codec;
mod errors;
mod hash;
mod models;
mod parse;
mod roundtrip;
mod time;
mod verify;

pub use codec::esc_char;
pub use codec::escape;
pub use codec::files_json;
pub use codec::json_str;
pub use codec::record_display;
pub use codec::record_json;
pub use codec::serialize_database;
pub use codec::store_json;
pub use codec::ts_chars;
pub use codec::ts_display;
pub use errors::AllowedIO;
pub use errors::DatabaseError;
pub use errors::FileError;
pub use errors::HashError;
pub use errors::HashErrorMessage;
pub use errors::InitError;
pub use errors::IoError;
pub use errors::VerificationError;
pub use hash::hash_bytes;
pub use hash::hex_of;
pub use hash::is_hex_char;
pub use hash::lemma_digest_deterministic;
pub use hash::sha256_of;
pub use hash::spec_digest;
pub use models::builder_record;
pub use models::first_failure;
pub use models::store_serializable;
pub use models::validation_message;
pub use models::Database;
pub use models::FileRecord;
pub use models::FileRecordBuilder;
pub use models::HexStirng;
pub use models::RecordView;
pub use models::StoreView;
pub use models::ValidationError;
pub use parse::load_error_message;
pub use parse::parse_database_file;
pub use parse::parse_error_message;
pub use parse::spec_parse_store;
pub use roundtrip::lemma_store_json_injective;
pub use roundtrip::lemma_store_parse_sound;
pub use roundtrip::lemma_store_roundtrip;
pub use time::days_in_month;
pub use time::is_leap_year;
pub use time::spec_days_in_month;
pub use time::spec_is_leap_year;
pub use time::ts_epoch;
pub use time::ts_le;
pub use time::ts_valid;
pub use time::Timestamp;
pub use verify::bulk_verify;
pub use verify::find_record;
pub use verify::record_outcome_ok;
pub use verify::verify_bytes;
pub use verify::VerifyOutcome;

verus! {

/// Schema version written into every newly created store.
pub const VERSION: &'static str = "1.0.0";

} // verus!
