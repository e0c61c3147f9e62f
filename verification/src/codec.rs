//! The persisted form of a store, and the serializer that produces it.
//!
//! A store is persisted as one pretty-printed JSON document with a fixed
//! schema and a fixed layout. The layout is specified here character by
//! character as spec functions; the serializer is proved to emit exactly
//! that text, and the parser (see the sibling modules) is proved to accept
//! it back.

use crate::hash::hex_char;
use crate::models::store_serializable;
use crate::models::Database;
use crate::models::FileRecord;
use crate::models::RecordView;
use crate::models::StoreView;
use crate::time::ts_valid;
use crate::time::Timestamp;
use vstd::prelude::*;

verus! {

/// The JSON escaping of one character: quote and backslash get a backslash
/// escape, control characters a `\u00XX` escape, everything else stands for
/// itself.
pub open spec fn esc_char(c: char) -> Seq<char> {
    if c == '"' {
        seq!['\\', '"']
    } else if c == '\\' {
        seq!['\\', '\\']
    } else if (c as u32) < 32 {
        seq!['\\', 'u', '0', '0', hex_char(c as u32 as int / 16), hex_char(c as u32 as int % 16)]
    } else {
        seq![c]
    }
}

/// The JSON escaping of a string's characters.
pub open spec fn escape(s: Seq<char>) -> Seq<char>
    decreases s.len(),
{
    if s.len() == 0 {
        Seq::empty()
    } else {
        esc_char(s[0]) + escape(s.drop_first())
    }
}

/// Escaping distributes over concatenation.
pub proof fn lemma_escape_concat(a: Seq<char>, b: Seq<char>)
    ensures
        escape(a + b) == escape(a) + escape(b),
    decreases a.len(),
{
    if a.len() == 0 {
        assert(a + b =~= b);
        assert(escape(a) + escape(b) =~= escape(b));
    } else {
        lemma_escape_concat(a.drop_first(), b);
        assert((a + b).drop_first() =~= a.drop_first() + b);
        assert(escape(a + b) =~= escape(a) + escape(b));
    }
}

/// Escaping one more character appends its escaping.
pub proof fn lemma_escape_push(s: Seq<char>, c: char)
    ensures
        escape(s.push(c)) == escape(s) + esc_char(c),
{
    lemma_escape_concat(s, seq![c]);
    assert(s.push(c) =~= s + seq![c]);
    assert(seq![c].len() == 1 && seq![c][0] == c);
    assert(seq![c].drop_first() =~= Seq::<char>::empty());
    assert(escape(seq![c]) == esc_char(c) + escape(Seq::<char>::empty()));
    assert(esc_char(c) + escape(Seq::<char>::empty()) =~= esc_char(c));
}

/// A JSON string token: the escaped characters between two quotes.
pub open spec fn json_str(s: Seq<char>) -> Seq<char> {
    seq!['"'] + escape(s) + seq!['"']
}

/// Whether `c` is a decimal digit.
pub open spec fn is_dec_char(c: char) -> bool {
    '0' <= c && c <= '9'
}

/// The numeric value of a decimal digit character.
pub open spec fn dval(c: char) -> int {
    c as u32 as int - 48
}

/// The decimal notation of a nonnegative integer, without leading zeros.
pub open spec fn dec_digits(n: int) -> Seq<char>
    decreases n,
{
    if n < 10 {
        seq![hex_char(n)]
    } else {
        dec_digits(n / 10).push(hex_char(n % 10))
    }
}

/// A two-digit zero-padded decimal, for values below 100.
pub open spec fn pad2(n: int) -> Seq<char> {
    seq![hex_char(n / 10), hex_char(n % 10)]
}

/// A four-digit zero-padded decimal, for values below 10000: the two-digit
/// groups of hundreds and of the remainder.
pub open spec fn pad4(n: int) -> Seq<char> {
    pad2(n / 100) + pad2(n % 100)
}

/// A timestamp in its persisted form: `YYYY-MM-DDTHH:MM:SSZ`.
pub open spec fn ts_chars(t: Timestamp) -> Seq<char> {
    pad4(t.year as int) + seq!['-'] + pad2(t.month as int) + seq!['-'] + pad2(t.day as int)
        + seq!['T'] + pad2(t.hour as int) + seq![':'] + pad2(t.minute as int) + seq![':'] + pad2(
        t.second as int,
    ) + seq!['Z']
}

/// One record in its persisted form.
pub open spec fn record_json(r: RecordView) -> Seq<char> {
    "    {\n      \"id\": "@ + json_str(r.id) + ",\n      \"path\": "@ + json_str(r.path)
        + ",\n      \"hash\": "@ + json_str(r.hash) + ",\n      \"size\": "@ + dec_digits(
        r.size as int,
    ) + ",\n      \"time_stamp\": \""@ + ts_chars(r.time_stamp) + "\"\n    }"@
}

/// The records of a non-empty list, joined by `,\n`.
pub open spec fn files_items(rs: Seq<RecordView>) -> Seq<char>
    decreases rs.len(),
{
    if rs.len() == 0 {
        Seq::empty()
    } else if rs.len() == 1 {
        record_json(rs[0])
    } else {
        record_json(rs[0]) + ",\n"@ + files_items(rs.drop_first())
    }
}

/// The record list in its persisted form.
pub open spec fn files_json(rs: Seq<RecordView>) -> Seq<char> {
    if rs.len() == 0 {
        "[]"@
    } else {
        "[\n"@ + files_items(rs) + "\n  ]"@
    }
}

/// A whole store in its persisted form.
pub open spec fn store_json(s: StoreView) -> Seq<char> {
    "{\n  \"version\": "@ + json_str(s.version) + ",\n  \"root_dir\": "@ + json_str(s.root_dir)
        + ",\n  \"created_at\": \""@ + ts_chars(s.created_at) + "\",\n  \"updated_at\": \""@
        + ts_chars(s.updated_at) + "\",\n  \"files\": "@ + files_json(s.files) + "\n}"@
}

/// Relies on std's `String::push`: appends one character.
#[verifier::external_body]
pub(crate) fn string_push(s: &mut String, c: char)
    ensures
        final(s)@ == old(s)@.push(c),
{
    s.push(c);
}

/// Relies on std's `FromIterator<char> for String` (through `collect`): the
/// string holds exactly the characters of the vector, in order.
#[verifier::external_body]
pub(crate) fn chars_to_string(v: &Vec<char>) -> (r: String)
    ensures
        r@ == v@,
{
    v.iter().collect()
}

/// Appends the lowercase hex character of a value below 16.
fn push_hex_char(out: &mut String, n: u8)
    requires
        n < 16,
    ensures
        final(out)@ == old(out)@.push(hex_char(n as int)),
{
    let c = if n == 0 {
        '0'
    } else if n == 1 {
        '1'
    } else if n == 2 {
        '2'
    } else if n == 3 {
        '3'
    } else if n == 4 {
        '4'
    } else if n == 5 {
        '5'
    } else if n == 6 {
        '6'
    } else if n == 7 {
        '7'
    } else if n == 8 {
        '8'
    } else if n == 9 {
        '9'
    } else if n == 10 {
        'a'
    } else if n == 11 {
        'b'
    } else if n == 12 {
        'c'
    } else if n == 13 {
        'd'
    } else if n == 14 {
        'e'
    } else {
        'f'
    };
    string_push(out, c);
}

/// Appends the JSON escaping of `s`.
fn push_escaped(out: &mut String, s: &str)
    ensures
        final(out)@ == old(out)@ + escape(s@),
{
    let len = s.unicode_len();
    let mut i: usize = 0;
    proof {
        assert(old(out)@ + escape(s@.take(0)) =~= old(out)@);
    }
    while i < len
        invariant
            len == s@.len(),
            i <= len,
            out@ == old(out)@ + escape(s@.take(i as int)),
        decreases len - i,
    {
        let c = s.get_char(i);
        if c == '"' {
            string_push(out, '\\');
            string_push(out, '"');
        } else if c == '\\' {
            string_push(out, '\\');
            string_push(out, '\\');
        } else if (c as u32) < 32 {
            let u = c as u32;
            string_push(out, '\\');
            string_push(out, 'u');
            string_push(out, '0');
            string_push(out, '0');
            push_hex_char(out, (u / 16) as u8);
            push_hex_char(out, (u % 16) as u8);
        } else {
            string_push(out, c);
        }
        proof {
            lemma_escape_push(s@.take(i as int), c);
            assert(s@.take(i + 1) =~= s@.take(i as int).push(c));
            assert(out@ =~= old(out)@ + escape(s@.take(i + 1)));
        }
        i = i + 1;
    }
    proof {
        assert(s@.take(len as int) =~= s@);
    }
}

/// Appends a JSON string token holding `s`.
fn push_json_str(out: &mut String, s: &str)
    ensures
        final(out)@ == old(out)@ + json_str(s@),
{
    string_push(out, '"');
    push_escaped(out, s);
    string_push(out, '"');
    proof {
        assert(out@ =~= old(out)@ + json_str(s@));
    }
}

/// Appends the decimal notation of `n`.
fn push_dec(out: &mut String, n: u64)
    ensures
        final(out)@ == old(out)@ + dec_digits(n as int),
    decreases n,
{
    if n >= 10 {
        push_dec(out, n / 10);
    }
    push_hex_char(out, (n % 10) as u8);
    proof {
        assert(out@ =~= old(out)@ + dec_digits(n as int));
    }
}

/// Appends the two-digit zero-padded decimal of `n`.
fn push_pad2(out: &mut String, n: u8)
    requires
        n < 100,
    ensures
        final(out)@ == old(out)@ + pad2(n as int),
{
    push_hex_char(out, n / 10);
    push_hex_char(out, n % 10);
    proof {
        assert(out@ =~= old(out)@ + pad2(n as int));
    }
}

/// Appends the four-digit zero-padded decimal of `n`.
fn push_pad4(out: &mut String, n: u16)
    requires
        n < 10000,
    ensures
        final(out)@ == old(out)@ + pad4(n as int),
{
    push_pad2(out, (n / 100) as u8);
    push_pad2(out, (n % 100) as u8);
    proof {
        assert(out@ =~= old(out)@ + pad4(n as int));
    }
}

/// Appends a timestamp in its persisted form.
fn push_ts(out: &mut String, t: &Timestamp)
    requires
        ts_valid(*t),
    ensures
        final(out)@ == old(out)@ + ts_chars(*t),
{
    push_pad4(out, t.year);
    string_push(out, '-');
    push_pad2(out, t.month);
    string_push(out, '-');
    push_pad2(out, t.day);
    string_push(out, 'T');
    push_pad2(out, t.hour);
    string_push(out, ':');
    push_pad2(out, t.minute);
    string_push(out, ':');
    push_pad2(out, t.second);
    string_push(out, 'Z');
    proof {
        assert(out@ =~= old(out)@ + ts_chars(*t));
    }
}

/// Appends one record in its persisted form.
fn push_record(out: &mut String, r: &FileRecord)
    requires
        ts_valid(r.time_stamp),
    ensures
        final(out)@ == old(out)@ + record_json(r@),
{
    out.append("    {\n      \"id\": ");
    push_json_str(out, r.id.as_str());
    out.append(",\n      \"path\": ");
    push_json_str(out, r.path.as_str());
    out.append(",\n      \"hash\": ");
    push_json_str(out, r.hash.as_str());
    out.append(",\n      \"size\": ");
    push_dec(out, r.size);
    out.append(",\n      \"time_stamp\": \"");
    push_ts(out, &r.time_stamp);
    out.append("\"\n    }");
    proof {
        assert(out@ =~= old(out)@ + record_json(r@));
    }
}

/// The views of a list of records.
pub open spec fn views_of(files: Seq<FileRecord>) -> Seq<RecordView> {
    files.map_values(|r: FileRecord| r@)
}

/// Appends the records from index `i` on, joined by `,\n`.
fn push_items(out: &mut String, files: &Vec<FileRecord>, i: usize)
    requires
        i < files@.len(),
        forall|j: int| i <= j < files@.len() ==> ts_valid(#[trigger] files@[j]@.time_stamp),
    ensures
        final(out)@ == old(out)@ + files_items(views_of(files@).skip(i as int)),
    decreases files@.len() - i,
{
    let n = files.len();
    proof {
        assert(ts_valid(files@[i as int]@.time_stamp));
    }
    push_record(out, &files[i]);
    if i + 1 < n {
        out.append(",\n");
        push_items(out, files, i + 1);
    }
    proof {
        let vs = views_of(files@);
        assert(vs.skip(i as int)[0] == files@[i as int]@);
        if i + 1 < files@.len() {
            assert(vs.skip(i as int).drop_first() =~= vs.skip(i + 1));
            assert(out@ =~= old(out)@ + files_items(vs.skip(i as int)));
        } else {
            assert(vs.skip(i as int).len() == 1);
            assert(out@ =~= old(out)@ + files_items(vs.skip(i as int)));
        }
    }
}

/// Appends the record list in its persisted form.
fn push_files(out: &mut String, files: &Vec<FileRecord>)
    requires
        forall|j: int| 0 <= j < files@.len() ==> ts_valid(#[trigger] files@[j]@.time_stamp),
    ensures
        final(out)@ == old(out)@ + files_json(views_of(files@)),
{
    if files.len() == 0 {
        out.append("[]");
    } else {
        out.append("[\n");
        push_items(out, files, 0);
        out.append("\n  ]");
        proof {
            assert(views_of(files@).skip(0) =~= views_of(files@));
        }
    }
    proof {
        assert(out@ =~= old(out)@ + files_json(views_of(files@)));
    }
}

/// Serializes the database to its pretty-printed persisted form.
///
/// The result is exactly the canonical text of the store's content; writing
/// it to disk is a caller concern.
pub fn serialize_database(db: &Database) -> (r: String)
    requires
        store_serializable(db@),
    ensures
        r@ == store_json(db@),
{
    let mut out = String::new();
    out.append("{\n  \"version\": ");
    push_json_str(&mut out, db.version.as_str());
    out.append(",\n  \"root_dir\": ");
    push_json_str(&mut out, db.root_dir.as_str());
    out.append(",\n  \"created_at\": \"");
    push_ts(&mut out, &db.created_at);
    out.append("\",\n  \"updated_at\": \"");
    push_ts(&mut out, &db.updated_at);
    out.append("\",\n  \"files\": ");
    proof {
        assert forall|j: int| 0 <= j < db.files@.len() implies ts_valid(
            #[trigger] db.files@[j]@.time_stamp,
        ) by {
            assert(db@.files[j] == db.files@[j]@);
            assert(ts_valid(db@.files[j].time_stamp));
        }
    }
    push_files(&mut out, &db.files);
    out.append("\n}");
    proof {
        assert(views_of(db.files@) =~= db@.files);
        assert(out@ =~= store_json(db@));
    }
    out
}

/// A timestamp in its on-screen form: `YYYY-MM-DD HH:MM:SS`.
pub open spec fn ts_display(t: Timestamp) -> Seq<char> {
    pad4(t.year as int) + seq!['-'] + pad2(t.month as int) + seq!['-'] + pad2(t.day as int)
        + seq![' '] + pad2(t.hour as int) + seq![':'] + pad2(t.minute as int) + seq![':'] + pad2(
        t.second as int,
    )
}

/// A record in its on-screen form: name, hash, size and capture time, one
/// per line.
pub open spec fn record_display(r: RecordView) -> Seq<char> {
    "File name: "@ + r.path + "\nHash: "@ + r.hash + "\nSize: "@ + dec_digits(r.size as int)
        + " bytes\nCreated: "@ + ts_display(r.time_stamp)
}

impl FileRecord {
    /// The record's multi-line on-screen description.
    pub fn describe(&self) -> (r: String)
        requires
            ts_valid(self.time_stamp),
        ensures
            r@ == record_display(self@),
    {
        let mut out = String::new();
        out.append("File name: ");
        out.append(self.path.as_str());
        out.append("\nHash: ");
        out.append(self.hash.as_str());
        out.append("\nSize: ");
        push_dec(&mut out, self.size);
        out.append(" bytes\nCreated: ");
        push_pad4(&mut out, self.time_stamp.year);
        string_push(&mut out, '-');
        push_pad2(&mut out, self.time_stamp.month);
        string_push(&mut out, '-');
        push_pad2(&mut out, self.time_stamp.day);
        string_push(&mut out, ' ');
        push_pad2(&mut out, self.time_stamp.hour);
        string_push(&mut out, ':');
        push_pad2(&mut out, self.time_stamp.minute);
        string_push(&mut out, ':');
        push_pad2(&mut out, self.time_stamp.second);
        proof {
            assert(out@ =~= record_display(self@));
        }
        out
    }
}

impl Database {
    /// The store's persisted form as text; see [`serialize_database`].
    pub fn serialize(&self) -> (r: String)
        requires
            store_serializable(self@),
        ensures
            r@ == store_json(self@),
    {
        serialize_database(self)
    }
}

} // verus!
