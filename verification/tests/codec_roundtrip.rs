use tamashii::parse_database_file;
use tamashii::serialize_database;
use tamashii::Database;
use tamashii::FileRecord;
use tamashii::HexStirng;
use tamashii::Timestamp;

fn ts(year: u16, month: u8, day: u8) -> Timestamp {
    Timestamp::new(year, month, day, 3, 4, 5).expect("valid timestamp")
}

fn demo_record(path: &str, content: &[u8], size: u64) -> FileRecord {
    FileRecord {
        id: "00112233445566778899aabbccddeeff".to_string(),
        path: path.to_string(),
        hash: tamashii::hash_bytes(content),
        size,
        time_stamp: ts(2024, 3, 4),
    }
}

#[test]
fn empty_store_serializes_to_expected_text() {
    let db = Database::new("/tmp/demo".to_string(), ts(2024, 1, 2));
    let expected = "{\n  \"version\": \"1.0.0\",\n  \"root_dir\": \"/tmp/demo\",\n  \"created_at\": \"2024-01-02T03:04:05Z\",\n  \"updated_at\": \"2024-01-02T03:04:05Z\",\n  \"files\": []\n}";
    assert_eq!(db.serialize(), expected);
}

#[test]
fn one_record_store_serializes_to_expected_text() {
    let mut db = Database::new("/tmp/demo".to_string(), ts(2024, 1, 2));
    db.files.push(demo_record("a.txt", b"hello", 5));
    let expected = "{\n  \"version\": \"1.0.0\",\n  \"root_dir\": \"/tmp/demo\",\n  \"created_at\": \"2024-01-02T03:04:05Z\",\n  \"updated_at\": \"2024-01-02T03:04:05Z\",\n  \"files\": [\n    {\n      \"id\": \"00112233445566778899aabbccddeeff\",\n      \"path\": \"a.txt\",\n      \"hash\": \"2cf24dba5fb0a30e26e83b2ac5b9e29e1b161e5c1fa7425e73043362938b9824\",\n      \"size\": 5,\n      \"time_stamp\": \"2024-03-04T03:04:05Z\"\n    }\n  ]\n}";
    assert_eq!(serialize_database(&db), expected);
}

#[test]
fn quotes_and_backslashes_are_escaped() {
    let mut db = Database::new("C:\\temp".to_string(), ts(2024, 1, 2));
    db.files.push(demo_record("we \"ird\"\\path", b"hello", 5));
    let text = db.serialize();
    assert!(text.contains("\"root_dir\": \"C:\\\\temp\""));
    assert!(text.contains("\"path\": \"we \\\"ird\\\"\\\\path\""));
}

#[test]
fn control_characters_are_escaped() {
    let mut db = Database::new("/tmp".to_string(), ts(2024, 1, 2));
    db.files.push(demo_record("line\none\ttwo", b"hello", 5));
    let text = db.serialize();
    assert!(text.contains("\"path\": \"line\\u000aone\\u0009two\""));
}

fn assert_same_store(a: &Database, b: &Database) {
    assert_eq!(a.version, b.version);
    assert_eq!(a.root_dir, b.root_dir);
    assert_eq!(a.created_at, b.created_at);
    assert_eq!(a.updated_at, b.updated_at);
    assert_eq!(a.files, b.files);
}

#[test]
fn empty_store_round_trips() {
    let db = Database::new("/tmp/demo".to_string(), ts(2024, 1, 2));
    let loaded = parse_database_file(db.serialize().as_str()).expect("own output must parse");
    assert_same_store(&db, &loaded);
}

#[test]
fn populated_store_round_trips_exactly() {
    let mut db = Database::new("/tmp/demo".to_string(), ts(2024, 1, 2));
    db.files.push(demo_record("a.txt", b"hello", 5));
    db.files.push(demo_record("we \"ird\"\\pa\nth", b"world", 5));
    db.files.push(demo_record("big.bin", b"", u64::MAX));
    db.updated_at = ts(2025, 12, 31);
    let text = db.serialize();
    let loaded = parse_database_file(text.as_str()).expect("own output must parse");
    assert_same_store(&db, &loaded);
}

#[test]
fn loaded_store_can_be_loaded_through_database_load() {
    let mut db = Database::new("/tmp/demo".to_string(), ts(2024, 1, 2));
    db.files.push(demo_record("a.txt", b"hello", 5));
    let loaded = Database::load(db.serialize().as_str()).expect("own output must load");
    assert_same_store(&db, &loaded);
}

#[test]
fn parse_rejects_malformed_text() {
    let e = parse_database_file("{}").err().expect("malformed text must not parse");
    assert_eq!(e.message, "Invalid JSON format: the text is not a canonical database document");
    assert!(parse_database_file("").is_err());
    assert!(parse_database_file("haphazard").is_err());
}

#[test]
fn parse_rejects_trailing_garbage() {
    let db = Database::new("/tmp/demo".to_string(), ts(2024, 1, 2));
    let mut text = db.serialize();
    text.push_str(" ");
    assert!(parse_database_file(text.as_str()).is_err());
}

#[test]
fn parse_rejects_calendar_inconsistent_timestamps() {
    let db = Database::new("/tmp/demo".to_string(), ts(2024, 1, 2));
    let text = db.serialize().replace("2024-01-02", "2024-13-02");
    assert!(parse_database_file(text.as_str()).is_err());
}

#[test]
fn parse_rejects_oversized_sizes() {
    let mut db = Database::new("/tmp/demo".to_string(), ts(2024, 1, 2));
    db.files.push(demo_record("a.txt", b"hello", u64::MAX));
    let text = db.serialize().replace("18446744073709551615", "18446744073709551616");
    assert!(parse_database_file(text.as_str()).is_err());
}

#[test]
fn hex_string_equality_is_string_equality() {
    let a = HexStirng("abc123".to_string());
    let b = HexStirng("abc123".to_string());
    let c = HexStirng("abc124".to_string());
    assert_eq!(a, b);
    assert_ne!(a, c);
}

#[test]
fn record_describe_renders_expected_text() {
    let record = demo_record("a.txt", b"hello", 5);
    let expected = "File name: a.txt\nHash: 2cf24dba5fb0a30e26e83b2ac5b9e29e1b161e5c1fa7425e73043362938b9824\nSize: 5 bytes\nCreated: 2024-03-04 03:04:05";
    assert_eq!(record.describe(), expected);
}

#[test]
fn parsing_then_serializing_returns_the_same_text() {
    let mut db = Database::new("/tmp/demo".to_string(), ts(2024, 1, 2));
    db.files.push(demo_record("a.txt", b"hello", 5));
    db.files.push(demo_record("b \"q\"\\r", b"world", 7));
    let text = db.serialize();
    let loaded = parse_database_file(text.as_str()).expect("own output must parse");
    assert_eq!(loaded.serialize(), text);
}
