//! The record model: hex strings, file records, the validating builder and
//! the store.
//!
//! A record is created only through the builder, which validates all fields
//! as a unit and appends exactly one record per successful commit; a
//! partially collected, invalid record can never reach the store.

use crate::errors::DatabaseError;
use crate::hash::hex_encode;
use crate::hash::is_hex_char;
use crate::hash::lemma_hex_of_chars;
use crate::hash::lemma_hex_of_len;
use crate::time::ts_epoch;
use crate::time::ts_le;
use crate::time::ts_valid;
use crate::time::Timestamp;
use crate::VERSION;
use vstd::prelude::*;

verus! {

/// A wrapper around `String` representing a hex-encoded hash value.
///
/// Equality is exact equality of the wrapped strings.
#[derive(Debug, Hash)]
pub struct HexStirng(pub String);

impl Clone for HexStirng {
    fn clone(&self) -> (r: Self)
        ensures
            r@ == self@,
    {
        HexStirng(self.0.clone())
    }
}

impl View for HexStirng {
    type V = Seq<char>;

    open spec fn view(&self) -> Seq<char> {
        self.0@
    }
}

impl PartialEq for HexStirng {
    fn eq(&self, other: &HexStirng) -> (r: bool) {
        self.0 == other.0
    }
}

impl vstd::std_specs::cmp::PartialEqSpecImpl for HexStirng {
    open spec fn obeys_eq_spec() -> bool {
        true
    }

    open spec fn eq_spec(&self, other: &HexStirng) -> bool {
        self.0@ == other.0@
    }
}

impl HexStirng {
    /// The wrapped hex string.
    pub fn as_str(&self) -> (r: &str)
        ensures
            r@ == self@,
    {
        self.0.as_str()
    }

    /// The first `k` characters of the hex string, or all of it when it is
    /// shorter: the abbreviated form shown when reporting hashes.
    pub fn prefix(&self, k: usize) -> (r: String)
        ensures
            r@ == self@.take(if k <= self@.len() {
                k as int
            } else {
                self@.len() as int
            }),
    {
        let len = self.0.as_str().unicode_len();
        let end = if k <= len {
            k
        } else {
            len
        };
        let sub = self.0.as_str().substring_char(0, end);
        String::from_str(sub)
    }
}

/// The mathematical content of a [`FileRecord`].
pub ghost struct RecordView {
    pub id: Seq<char>,
    pub path: Seq<char>,
    pub hash: Seq<char>,
    pub size: u64,
    pub time_stamp: Timestamp,
}

/// A permanent record of a file stored in the database.
///
/// Includes a unique identifier, path, hash, size, and capture timestamp.
#[derive(Debug, PartialEq)]
pub struct FileRecord {
    /// Unique 128-bit identifier (hex-encoded)
    pub id: String,
    /// Path to the file as supplied by the caller
    pub path: String,
    /// Content hash of the file
    pub hash: HexStirng,
    /// Size of the file in bytes
    pub size: u64,
    /// Time when the file was indexed
    pub time_stamp: Timestamp,
}

impl Clone for FileRecord {
    fn clone(&self) -> (r: Self)
        ensures
            r@ == self@,
    {
        FileRecord {
            id: self.id.clone(),
            path: self.path.clone(),
            hash: self.hash.clone(),
            size: self.size,
            time_stamp: self.time_stamp,
        }
    }
}

impl View for FileRecord {
    type V = RecordView;

    open spec fn view(&self) -> RecordView {
        RecordView {
            id: self.id@,
            path: self.path@,
            hash: self.hash@,
            size: self.size,
            time_stamp: self.time_stamp,
        }
    }
}

/// The mathematical content of a [`Database`].
pub ghost struct StoreView {
    pub version: Seq<char>,
    pub root_dir: Seq<char>,
    pub created_at: Timestamp,
    pub updated_at: Timestamp,
    pub files: Seq<RecordView>,
}

/// The main database structure storing file tracking information.
///
/// Persisted as a single pretty-printed text file.
#[derive(Debug)]
pub struct Database {
    /// Schema version
    pub version: String,
    /// Root directory of the tracked files
    pub root_dir: String,
    /// Database creation timestamp
    pub created_at: Timestamp,
    /// Database last update timestamp
    pub updated_at: Timestamp,
    /// List of tracked file records, in insertion order
    pub files: Vec<FileRecord>,
}

impl View for Database {
    type V = StoreView;

    open spec fn view(&self) -> StoreView {
        StoreView {
            version: self.version@,
            root_dir: self.root_dir@,
            created_at: self.created_at,
            updated_at: self.updated_at,
            files: self.files@.map_values(|r: FileRecord| r@),
        }
    }
}

/// What the persisted form can carry: every timestamp in the store is
/// calendar-consistent with a four-digit year.
pub open spec fn store_serializable(s: StoreView) -> bool {
    &&& ts_valid(s.created_at)
    &&& ts_valid(s.updated_at)
    &&& forall|i: int| 0 <= i < s.files.len() ==> ts_valid(#[trigger] s.files[i].time_stamp)
}

/// The reason the builder's validation rejected a candidate record: the
/// first field check, in declaration order, that failed.
#[derive(Clone, Copy, Debug, PartialEq, Eq, Structural)]
pub enum ValidationError {
    /// The id is missing or empty
    InvalidId,
    /// The path is missing or does not resolve to an existing file
    PathNotFound,
    /// The hash is missing or empty
    InvalidHash,
    /// The size is missing or zero
    InvalidSize,
    /// The timestamp is missing, calendar-inconsistent, or before the epoch
    InvalidTimestamp,
}

/// The message text carried by a validation failure.
pub open spec fn validation_message(e: ValidationError) -> Seq<char> {
    match e {
        ValidationError::InvalidId => "invalid id: missing or empty"@,
        ValidationError::PathNotFound => "invalid path: missing or not found on the filesystem"@,
        ValidationError::InvalidHash => "invalid hash: missing or empty"@,
        ValidationError::InvalidSize => "invalid size: missing or zero"@,
        ValidationError::InvalidTimestamp => "invalid timestamp: missing or before the Unix epoch"@,
    }
}

impl ValidationError {
    /// The message text for this failure.
    pub fn message(&self) -> (r: String)
        ensures
            r@ == validation_message(*self),
    {
        match self {
            ValidationError::InvalidId => String::from_str("invalid id: missing or empty"),
            ValidationError::PathNotFound => String::from_str(
                "invalid path: missing or not found on the filesystem",
            ),
            ValidationError::InvalidHash => String::from_str("invalid hash: missing or empty"),
            ValidationError::InvalidSize => String::from_str("invalid size: missing or zero"),
            ValidationError::InvalidTimestamp => String::from_str(
                "invalid timestamp: missing or before the Unix epoch",
            ),
        }
    }
}

/// Builder for constructing and validating `FileRecord` instances.
///
/// Accumulates candidate field values; [`FileRecordBuilder::commit`]
/// validates them as a unit and appends exactly one record to a store.
pub struct FileRecordBuilder {
    /// Fresh unique identifier, generated by `with_fields`
    pub id: Option<String>,
    /// Candidate file path
    pub path: Option<String>,
    /// Candidate file hash
    pub hash: Option<HexStirng>,
    /// Candidate file size
    pub size: Option<u64>,
    /// Candidate timestamp
    pub time_stamp: Option<Timestamp>,
}

/// The id check: present and non-empty.
pub open spec fn builder_id_ok(b: FileRecordBuilder) -> bool {
    b.id is Some && b.id->0@.len() > 0
}

/// The path check: present, and the caller's filesystem probe found it.
pub open spec fn builder_path_ok(b: FileRecordBuilder, path_exists: bool) -> bool {
    b.path is Some && path_exists
}

/// The hash check: present and non-empty.
pub open spec fn builder_hash_ok(b: FileRecordBuilder) -> bool {
    b.hash is Some && b.hash->0@.len() > 0
}

/// The size check: present and nonzero.
pub open spec fn builder_size_ok(b: FileRecordBuilder) -> bool {
    b.size is Some && b.size->0 > 0
}

/// The timestamp check: present, calendar-consistent, not before the epoch.
pub open spec fn builder_ts_ok(b: FileRecordBuilder) -> bool {
    b.time_stamp is Some && ts_valid(b.time_stamp->0) && ts_le(ts_epoch(), b.time_stamp->0)
}

/// The first failing check, in order: id, path, hash, size, timestamp; or
/// `None` when every check passes.
pub open spec fn first_failure(b: FileRecordBuilder, path_exists: bool) -> Option<
    ValidationError,
> {
    if !builder_id_ok(b) {
        Some(ValidationError::InvalidId)
    } else if !builder_path_ok(b, path_exists) {
        Some(ValidationError::PathNotFound)
    } else if !builder_hash_ok(b) {
        Some(ValidationError::InvalidHash)
    } else if !builder_size_ok(b) {
        Some(ValidationError::InvalidSize)
    } else if !builder_ts_ok(b) {
        Some(ValidationError::InvalidTimestamp)
    } else {
        None
    }
}

/// The record a fully populated builder describes.
pub open spec fn builder_record(b: FileRecordBuilder) -> RecordView {
    RecordView {
        id: b.id->0@,
        path: b.path->0@,
        hash: b.hash->0@,
        size: b.size->0,
        time_stamp: b.time_stamp->0,
    }
}

impl FileRecordBuilder {
    /// Populates all builder fields in one call and generates a new unique
    /// ID.
    ///
    /// # Arguments
    ///
    /// * `path` - The path of the file to record
    /// * `hash` - The computed hash of the file
    /// * `size` - The size of the file in bytes
    /// * `time_stamp` - The capture timestamp
    pub fn with_fields(self, path: String, hash: HexStirng, size: u64, time_stamp: Timestamp) -> (r:
        FileRecordBuilder)
        ensures
            r.id is Some && r.id->0@.len() == 32,
            forall|i: int| 0 <= i < 32 ==> is_hex_char(#[trigger] r.id->0@[i]),
            r.path == Some(path),
            r.hash == Some(hash),
            r.size == Some(size),
            r.time_stamp == Some(time_stamp),
    {
        FileRecordBuilder {
            id: Some(Database::gen_id()),
            path: Some(path),
            hash: Some(hash),
            size: Some(size),
            time_stamp: Some(time_stamp),
        }
    }

    /// Validates the current builder state.
    ///
    /// Checks, in order: the id is present and non-empty; the path is
    /// present and `path_exists` (the caller's filesystem probe) is true;
    /// the hash is present and non-empty; the size is present and nonzero;
    /// the timestamp is present, calendar-consistent and not before the
    /// Unix epoch. Returns the first failing check's reason.
    pub fn validate(&self, path_exists: bool) -> (r: Result<(), ValidationError>)
        ensures
            r == match first_failure(*self, path_exists) {
                None => Ok::<(), ValidationError>(()),
                Some(e) => Err::<(), ValidationError>(e),
            },
    {
        let id_ok = match &self.id {
            Some(id) => !id.as_str().is_empty(),
            None => false,
        };
        if !id_ok {
            return Err(ValidationError::InvalidId);
        }
        if !(self.path.is_some() && path_exists) {
            return Err(ValidationError::PathNotFound);
        }
        let hash_ok = match &self.hash {
            Some(h) => !h.as_str().is_empty(),
            None => false,
        };
        if !hash_ok {
            return Err(ValidationError::InvalidHash);
        }
        let size_ok = match &self.size {
            Some(s) => *s > 0,
            None => false,
        };
        if !size_ok {
            return Err(ValidationError::InvalidSize);
        }
        let ts_ok = match &self.time_stamp {
            Some(t) => t.is_valid() && t.not_before_epoch(),
            None => false,
        };
        if !ts_ok {
            return Err(ValidationError::InvalidTimestamp);
        }
        Ok(())
    }

    /// Validates and appends the record to the database.
    ///
    /// On success, appends exactly one record built from the accumulated
    /// fields, advances the store's `updated_at` to `now`, and returns the
    /// appended record. On failure, the store is left unchanged and the
    /// validation reason is surfaced, wrapped with commit-level context.
    pub fn commit(self, db: &mut Database, path_exists: bool, now: Timestamp) -> (r: Result<
        FileRecord,
        DatabaseError,
    >)
        requires
            ts_valid(now),
        ensures
            match first_failure(self, path_exists) {
                None => {
                    &&& r is Ok
                    &&& r->Ok_0@ == builder_record(self)
                    &&& final(db)@.files == old(db)@.files.push(builder_record(self))
                    &&& final(db)@.version == old(db)@.version
                    &&& final(db)@.root_dir == old(db)@.root_dir
                    &&& final(db)@.created_at == old(db)@.created_at
                    &&& final(db)@.updated_at == now
                },
                Some(e) => {
                    &&& r is Err
                    &&& r->Err_0.message@ == "Failed to commit database changes: "@
                        + validation_message(e)
                    &&& *final(db) == *old(db)
                },
            },
            store_serializable(old(db)@) ==> store_serializable(final(db)@),
    {
        let ghost b = self;
        if let Err(e) = self.validate(path_exists) {
            let mut message = String::from_str("Failed to commit database changes: ");
            message.append(e.message().as_str());
            return Err(DatabaseError { message });
        }
        let record = FileRecord {
            id: self.id.unwrap(),
            path: self.path.unwrap(),
            hash: self.hash.unwrap(),
            size: self.size.unwrap(),
            time_stamp: self.time_stamp.unwrap(),
        };
        let returned = record.clone();
        db.files.push(record);
        db.updated_at = now;
        proof {
            assert(db@.files =~= old(db)@.files.push(builder_record(b)));
        }
        Ok(returned)
    }
}

impl Database {
    /// Returns a fresh, empty [`FileRecordBuilder`] for this database.
    ///
    /// The builder is used to create and validate `FileRecord` instances
    /// before adding them to the database with `commit`.
    pub fn builder(&self) -> (r: FileRecordBuilder)
        ensures
            r.id is None,
            r.path is None,
            r.hash is None,
            r.size is None,
            r.time_stamp is None,
    {
        FileRecordBuilder { id: None, path: None, hash: None, size: None, time_stamp: None }
    }

    /// Initializes a new database rooted at `root_dir`, with both lifecycle
    /// timestamps set to `now` and no tracked files.
    pub fn new(root_dir: String, now: Timestamp) -> (r: Database)
        requires
            ts_valid(now),
        ensures
            r@.version == VERSION@,
            r@.root_dir == root_dir@,
            r@.created_at == now,
            r@.updated_at == now,
            r@.files == Seq::<RecordView>::empty(),
            store_serializable(r@),
    {
        let r = Database {
            version: String::from_str(VERSION),
            root_dir,
            created_at: now,
            updated_at: now,
            files: Vec::new(),
        };
        proof {
            assert(r@.files =~= Seq::<RecordView>::empty());
        }
        r
    }

    /// Number of tracked records.
    pub fn file_count(&self) -> (r: usize)
        ensures
            r == self@.files.len(),
    {
        self.files.len()
    }

    /// Generates a random 128-bit hex-encoded ID used for unique file
    /// identification.
    fn gen_id() -> (r: String)
        ensures
            r@.len() == 32,
            forall|i: int| 0 <= i < 32 ==> is_hex_char(#[trigger] r@[i]),
    {
        let bytes = random_bytes_16();
        proof {
            lemma_hex_of_len(bytes@);
            lemma_hex_of_chars(bytes@);
        }
        hex_encode(bytes.as_slice())
    }
}

/// Relies on rand's `ThreadRng::fill_bytes`: fills the buffer with 16
/// bytes; nothing is promised about their values.
#[verifier::external_body]
fn random_bytes_16() -> (r: Vec<u8>)
    ensures
        r@.len() == 16,
{
    let mut rng = rand::rng();
    let mut bytes = [0u8; 16];
    rand::RngCore::fill_bytes(&mut rng, &mut bytes);
    bytes.to_vec()
}

} // verus!
