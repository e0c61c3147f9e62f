use tamashii::bulk_verify;
use tamashii::hash_bytes;
use tamashii::verify_bytes;
use tamashii::Database;
use tamashii::Timestamp;
use tamashii::VerificationError;
use tamashii::VerifyOutcome;

fn ts(year: u16, month: u8, day: u8) -> Timestamp {
    Timestamp::new(year, month, day, 3, 4, 5).expect("valid timestamp")
}

fn store_with(path: &str, content: &[u8], recorded: Timestamp) -> Database {
    let mut db = Database::new("/tmp".to_string(), ts(2024, 1, 2));
    let builder = db.builder().with_fields(
        path.to_string(),
        hash_bytes(content),
        content.len() as u64,
        recorded,
    );
    builder.commit(&mut db, true, ts(2024, 1, 2)).expect("valid record must commit");
    db
}

#[test]
fn add_then_verify_unchanged() {
    let db = store_with("a.txt", b"hello", ts(2024, 3, 4));
    assert_eq!(db.files[0].hash.as_str(), "2cf24dba5fb0a30e26e83b2ac5b9e29e1b161e5c1fa7425e73043362938b9824");
    let outcome = verify_bytes(&db, &"a.txt".to_string(), b"hello");
    assert!(matches!(outcome, VerifyOutcome::Unchanged));
}

#[test]
fn add_mutate_then_verify_mismatch() {
    let recorded = ts(2024, 3, 4);
    let db = store_with("a.txt", b"hello", recorded);
    let outcome = verify_bytes(&db, &"a.txt".to_string(), b"world");
    match outcome {
        VerifyOutcome::Mismatch { old_hash, new_hash, recorded_time } => {
            assert_eq!(old_hash.prefix(8), "2cf24dba");
            assert_eq!(new_hash.prefix(8), "486ea462");
            assert_eq!(
                old_hash.as_str(),
                "2cf24dba5fb0a30e26e83b2ac5b9e29e1b161e5c1fa7425e73043362938b9824"
            );
            assert_eq!(
                new_hash.as_str(),
                "486ea46224d1bb4fb680f34f7c9ad96a8f24ec88be73ea8e5a6c65260e9cb8a7"
            );
            assert_eq!(recorded_time, recorded);
        },
        other => panic!("expected a mismatch, got {:?}", other),
    }
}

#[test]
fn verify_untracked_path_reports_untracked_and_leaves_store_unchanged() {
    let db = store_with("a.txt", b"hello", ts(2024, 3, 4));
    let before = db.serialize();
    let outcome = verify_bytes(&db, &"never-added.txt".to_string(), b"hello");
    assert!(matches!(outcome, VerifyOutcome::Untracked));
    assert_eq!(db.serialize(), before);
    assert_eq!(db.files.len(), 1);
}

#[test]
fn verify_finds_first_record_in_insertion_order() {
    let mut db = store_with("a.txt", b"hello", ts(2024, 3, 4));
    let builder = db.builder().with_fields(
        "a.txt".to_string(),
        hash_bytes(b"world"),
        5,
        ts(2024, 5, 6),
    );
    builder.commit(&mut db, true, ts(2024, 5, 6)).expect("valid record must commit");
    let outcome = verify_bytes(&db, &"a.txt".to_string(), b"hello");
    assert!(matches!(outcome, VerifyOutcome::Unchanged));
}

#[test]
fn bulk_verify_on_empty_store_reports_nothing() {
    let now = ts(2024, 1, 2);
    let db = Database::get_or_create_db(None, "/tmp".to_string(), now).expect("bootstrap");
    assert_eq!(db.files.len(), 0);
    let contents: Vec<Option<Vec<u8>>> = Vec::new();
    let report = bulk_verify(&db, &contents);
    assert!(report.is_empty());
}

#[test]
fn bulk_verify_reports_each_record_independently() {
    let mut db = store_with("a.txt", b"hello", ts(2024, 3, 4));
    let b = db.builder().with_fields("b.txt".to_string(), hash_bytes(b"world"), 5, ts(2024, 3, 4));
    b.commit(&mut db, true, ts(2024, 3, 4)).expect("valid record must commit");
    let c = db.builder().with_fields("c.txt".to_string(), hash_bytes(b"third"), 5, ts(2024, 3, 4));
    c.commit(&mut db, true, ts(2024, 3, 4)).expect("valid record must commit");

    let contents: Vec<Option<Vec<u8>>> = vec![
        Some(b"hello".to_vec()),
        None,
        Some(b"changed".to_vec()),
    ];
    let report = bulk_verify(&db, &contents);
    assert_eq!(report.len(), 3);
    assert!(matches!(report[0], Ok(VerifyOutcome::Unchanged)));
    assert!(matches!(report[1], Err(VerificationError::IoFailure)));
    match &report[2] {
        Ok(VerifyOutcome::Mismatch { old_hash, new_hash, .. }) => {
            assert_eq!(old_hash.as_str(), hash_bytes(b"third").as_str());
            assert_eq!(new_hash.as_str(), hash_bytes(b"changed").as_str());
        },
        other => panic!("expected a mismatch, got {:?}", other),
    }
}
