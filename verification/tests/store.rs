use tamashii::hash_bytes;
use tamashii::Database;
use tamashii::Timestamp;
use tamashii::ValidationError;
use tamashii::VERSION;

fn ts(year: u16, month: u8, day: u8) -> Timestamp {
    Timestamp::new(year, month, day, 3, 4, 5).expect("valid timestamp")
}

/// Tests basic database creation.
#[test]
fn create_db() {
    let db = Database::new("/tmp/demo".to_string(), ts(2024, 1, 2));
    println!("The db: {:?}", db);
}

/// Tests database building from scratch.
#[test]
fn build_db() {
    let test_db = Database::new("/work/project".to_string(), ts(2024, 1, 2));
    assert_eq!(test_db.version, VERSION);
    assert_eq!(test_db.root_dir, "/work/project");
}

/// Verifies that a database instance can be serialized for saving.
#[test]
fn save_db() {
    let test_db = Database::new("/tmp/demo".to_string(), ts(2024, 1, 2));
    let text = test_db.serialize();
    assert!(text.starts_with('{'));
    assert!(text.ends_with('}'));
}

/// Tests loading a database from freshly saved content.
#[test]
fn load_db() {
    let fresh = Database::new("/tmp/demo".to_string(), ts(2024, 1, 2));
    let text = fresh.serialize();
    let db = Database::get_or_create_db(Some(text.as_str()), "/ignored".to_string(), ts(2025, 6, 7))
        .expect("Failed trying to create a new DB instance");
    println!("DB files count: {}", db.files.len());
    assert!(db.files.is_empty());
    assert_eq!(db.root_dir, "/tmp/demo");
}

#[test]
fn get_or_create_without_file_bootstraps() {
    let now = ts(2024, 1, 2);
    let db = Database::get_or_create_db(None, "/somewhere".to_string(), now)
        .expect("bootstrap cannot fail");
    assert_eq!(db.version, VERSION);
    assert_eq!(db.root_dir, "/somewhere");
    assert_eq!(db.created_at, now);
    assert_eq!(db.updated_at, now);
    assert!(db.files.is_empty());
}

#[test]
fn get_or_create_with_garbage_fails_with_load_error() {
    let r = Database::get_or_create_db(Some("not a database"), "/x".to_string(), ts(2024, 1, 2));
    let e = r.err().expect("parse must fail");
    assert_eq!(
        e.message,
        "Failed to load DB file: Invalid JSON format: the text is not a canonical database document"
    );
}

#[test]
fn commit_appends_exactly_one_record_and_advances_updated_at() {
    let created = ts(2024, 1, 2);
    let now = ts(2024, 5, 6);
    let mut db = Database::new("/tmp".to_string(), created);
    let hash = hash_bytes(b"hello");
    let builder = db.builder().with_fields("a.txt".to_string(), hash, 5, ts(2024, 3, 4));
    let record = builder.commit(&mut db, true, now).expect("valid record must commit");
    assert_eq!(db.files.len(), 1);
    assert_eq!(db.files[0], record);
    assert_eq!(record.path, "a.txt");
    assert_eq!(record.size, 5);
    assert_eq!(record.time_stamp, ts(2024, 3, 4));
    assert_eq!(db.updated_at, now);
    assert_eq!(db.created_at, created);
}

#[test]
fn with_fields_generates_fresh_hex_ids() {
    let db = Database::new("/tmp".to_string(), ts(2024, 1, 2));
    let b1 = db.builder().with_fields("a".to_string(), hash_bytes(b"x"), 1, ts(2024, 1, 2));
    let b2 = db.builder().with_fields("a".to_string(), hash_bytes(b"x"), 1, ts(2024, 1, 2));
    let id1 = b1.id.expect("id populated");
    let id2 = b2.id.expect("id populated");
    assert_eq!(id1.len(), 32);
    assert!(id1.chars().all(|c| c.is_ascii_hexdigit() && !c.is_ascii_uppercase()));
    assert_ne!(id1, id2);
}

#[test]
fn validate_reports_first_failing_check_in_order() {
    let db = Database::new("/tmp".to_string(), ts(2024, 1, 2));
    let empty = db.builder();
    assert_eq!(empty.validate(true), Err(ValidationError::InvalidId));

    let good = ts(2024, 3, 4);
    let b = db.builder().with_fields("a.txt".to_string(), hash_bytes(b"hello"), 5, good);
    assert_eq!(b.validate(true), Ok(()));
    assert_eq!(b.validate(false), Err(ValidationError::PathNotFound));

    let empty_hash = db.builder().with_fields(
        "a.txt".to_string(),
        tamashii::HexStirng(String::new()),
        5,
        good,
    );
    assert_eq!(empty_hash.validate(true), Err(ValidationError::InvalidHash));

    let zero_size = db.builder().with_fields("a.txt".to_string(), hash_bytes(b"hello"), 0, good);
    assert_eq!(zero_size.validate(true), Err(ValidationError::InvalidSize));

    let pre_epoch = Timestamp::new(1969, 12, 31, 23, 59, 59).expect("calendar-consistent");
    let old_ts = db.builder().with_fields("a.txt".to_string(), hash_bytes(b"hello"), 5, pre_epoch);
    assert_eq!(old_ts.validate(true), Err(ValidationError::InvalidTimestamp));
}

#[test]
fn failed_commit_leaves_store_unchanged() {
    let now = ts(2024, 5, 6);
    let mut db = Database::new("/tmp".to_string(), ts(2024, 1, 2));
    let before_updated = db.updated_at;

    let zero_size =
        db.builder().with_fields("a.txt".to_string(), hash_bytes(b"hello"), 0, ts(2024, 3, 4));
    let err = zero_size.commit(&mut db, true, now).err().expect("invalid record must not commit");
    assert_eq!(err.message, "Failed to commit database changes: invalid size: missing or zero");
    assert_eq!(db.files.len(), 0);
    assert_eq!(db.updated_at, before_updated);

    let missing_path =
        db.builder().with_fields("a.txt".to_string(), hash_bytes(b"hello"), 5, ts(2024, 3, 4));
    let err = missing_path.commit(&mut db, false, now).err().expect("missing file must not commit");
    assert_eq!(
        err.message,
        "Failed to commit database changes: invalid path: missing or not found on the filesystem"
    );
    assert_eq!(db.files.len(), 0);
    assert_eq!(db.updated_at, before_updated);

    let empty_hash = db.builder().with_fields(
        "a.txt".to_string(),
        tamashii::HexStirng(String::new()),
        5,
        ts(2024, 3, 4),
    );
    let err = empty_hash.commit(&mut db, true, now).err().expect("empty hash must not commit");
    assert_eq!(err.message, "Failed to commit database changes: invalid hash: missing or empty");
    assert_eq!(db.files.len(), 0);
    assert_eq!(db.updated_at, before_updated);
}

#[test]
fn timestamp_new_accepts_only_calendar_consistent_fields() {
    assert!(Timestamp::new(2024, 2, 29, 0, 0, 0).is_some());
    assert!(Timestamp::new(2023, 2, 29, 0, 0, 0).is_none());
    assert!(Timestamp::new(2023, 13, 1, 0, 0, 0).is_none());
    assert!(Timestamp::new(2023, 4, 31, 0, 0, 0).is_none());
    assert!(Timestamp::new(2023, 4, 30, 23, 59, 59).is_some());
    assert!(Timestamp::new(2023, 4, 30, 24, 0, 0).is_none());
    assert!(Timestamp::new(2023, 4, 30, 0, 60, 0).is_none());
    assert!(Timestamp::new(2000, 2, 29, 0, 0, 0).is_some());
    assert!(Timestamp::new(1900, 2, 29, 0, 0, 0).is_none());
}
