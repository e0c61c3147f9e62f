//! Persistence round trip: loading what was saved yields the same store.
//!
//! The serializer's contract says it emits exactly [`store_json`] of the
//! store; the parser's contract says it returns exactly
//! [`spec_parse_store`] of the text. This module closes the loop: scanning
//! the canonical text of any serializable store succeeds and recovers the
//! store, field for field and record for record.

use crate::codec::dec_digits;
use crate::codec::dval;
use crate::codec::esc_char;
use crate::codec::escape;
use crate::codec::files_items;
use crate::codec::files_json;
use crate::codec::is_dec_char;
use crate::codec::json_str;
use crate::codec::pad2;
use crate::codec::pad4;
use crate::codec::record_json;
use crate::codec::store_json;
use crate::codec::ts_chars;
use crate::hash::hex_char;
use crate::hash::is_hex_char;
use crate::models::store_serializable;
use crate::models::RecordView;
use crate::models::StoreView;
use crate::parse::digits_val;
use crate::parse::hval;
use crate::parse::lemma_digits_val_nonneg;
use crate::parse::lemma_scan_digits_split;
use crate::parse::scan_digits;
use crate::parse::scan_files;
use crate::parse::scan_items;
use crate::parse::scan_jstr;
use crate::parse::scan_lit;
use crate::parse::scan_pad2;
use crate::parse::scan_pad4;
use crate::parse::scan_record;
use crate::parse::scan_str;
use crate::parse::scan_ts;
use crate::parse::scan_u64;
use crate::parse::spec_parse_store;
use crate::time::ts_valid;
use crate::time::Timestamp;
use vstd::arithmetic::div_mod::lemma_fundamental_div_mod;
use vstd::prelude::*;

verus! {

/// Scanning a literal off the front of a text that starts with it succeeds
/// and leaves the remainder.
proof fn lemma_scan_lit_complete(lit: Seq<char>, rest: Seq<char>)
    ensures
        scan_lit(lit + rest, lit) == Some(rest),
{
    assert((lit + rest).take(lit.len() as int) =~= lit);
    assert((lit + rest).skip(lit.len() as int) =~= rest);
}

/// The hex character of a value below 10 is a decimal digit with that
/// value.
proof fn lemma_hex_char_digit(m: int)
    requires
        0 <= m < 10,
    ensures
        is_dec_char(hex_char(m)),
        dval(hex_char(m)) == m,
{
}

/// The hex character of a value below 16 is a lowercase hex digit with
/// that value.
proof fn lemma_hex_char_hex(m: int)
    requires
        0 <= m < 16,
    ensures
        is_hex_char(hex_char(m)),
        hval(hex_char(m)) == m,
{
}

/// Scanning the escaping of a string followed by a closing quote recovers
/// the string.
proof fn lemma_scan_str_complete(s: Seq<char>, rest: Seq<char>)
    ensures
        scan_str(escape(s) + seq!['"'] + rest) == Some((s, rest)),
    decreases s.len(),
{
    let v = escape(s) + seq!['"'] + rest;
    if s.len() == 0 {
        assert(escape(s) =~= Seq::<char>::empty());
        assert(v =~= seq!['"'] + rest);
        assert(v[0] == '"');
        assert(v.drop_first() =~= rest);
        assert(Seq::<char>::empty() =~= s);
    } else {
        let c = s[0];
        let s1 = s.drop_first();
        lemma_scan_str_complete(s1, rest);
        let w = escape(s1) + seq!['"'] + rest;
        assert(escape(s) == esc_char(c) + escape(s1));
        if c == '"' || c == '\\' {
            assert(esc_char(c) =~= seq!['\\', c]);
            assert(v =~= seq!['\\', c] + w);
            assert(v[0] == '\\' && v[1] == c);
            assert(v.skip(2) =~= w);
            assert(seq![v[1]] + s1 =~= s);
        } else if (c as u32) < 32 {
            let code = c as u32 as int;
            assert(esc_char(c) == seq!['\\', 'u', '0', '0', hex_char(code / 16), hex_char(
                code % 16,
            )]);
            assert(v =~= seq!['\\', 'u', '0', '0', hex_char(code / 16), hex_char(code % 16)] + w);
            assert(v[0] == '\\' && v[1] == 'u' && v[2] == '0' && v[3] == '0');
            assert(v[4] == hex_char(code / 16) && v[5] == hex_char(code % 16));
            lemma_hex_char_hex(code / 16);
            lemma_hex_char_hex(code % 16);
            lemma_fundamental_div_mod(code, 16);
            assert(hval(v[4]) * 16 + hval(v[5]) == code);
            assert(v.skip(6) =~= w);
            vstd::utf8::char_u32_cast(c, c as u32);
            assert(((hval(v[4]) * 16 + hval(v[5])) as u32) as char == c);
            assert(seq![((hval(v[4]) * 16 + hval(v[5])) as u32) as char] + s1 =~= s);
        } else {
            assert(esc_char(c) =~= seq![c]);
            assert(v =~= seq![c] + w);
            assert(v[0] == c);
            assert(v.skip(1) =~= w);
            assert(seq![v[0]] + s1 =~= s);
        }
    }
}

/// Scanning a whole JSON string token recovers the string.
proof fn lemma_scan_jstr_complete(s: Seq<char>, rest: Seq<char>)
    ensures
        scan_jstr(json_str(s) + rest) == Some((s, rest)),
{
    let v = json_str(s) + rest;
    assert(v =~= seq!['"'] + (escape(s) + seq!['"'] + rest));
    assert(v[0] == '"');
    assert(v.drop_first() =~= escape(s) + seq!['"'] + rest);
    lemma_scan_str_complete(s, rest);
}

/// The decimal notation of a nonnegative integer is made of digits and has
/// no leading zero.
proof fn lemma_dec_digits_props(n: int)
    requires
        n >= 0,
    ensures
        dec_digits(n).len() >= 1,
        forall|k: int| 0 <= k < dec_digits(n).len() ==> is_dec_char(#[trigger] dec_digits(n)[k]),
        n >= 1 ==> dec_digits(n)[0] != '0',
    decreases n,
{
    if n < 10 {
        lemma_hex_char_digit(n);
        assert(dec_digits(n) =~= seq![hex_char(n)]);
    } else {
        lemma_dec_digits_props(n / 10);
        lemma_hex_char_digit(n % 10);
        let ds = dec_digits(n);
        let dq = dec_digits(n / 10);
        assert(ds == dq.push(hex_char(n % 10)));
        assert(forall|k: int| 0 <= k < dq.len() ==> ds[k] == dq[k]);
        assert(ds[dq.len() as int] == hex_char(n % 10));
    }
}

/// The value of the decimal notation of a nonnegative integer is the
/// integer.
proof fn lemma_digits_val_dec(n: int)
    requires
        n >= 0,
    ensures
        digits_val(dec_digits(n)) == n,
    decreases n,
{
    if n < 10 {
        lemma_hex_char_digit(n);
        let ds = dec_digits(n);
        assert(ds.drop_last() =~= Seq::<char>::empty());
        assert(digits_val(ds) == digits_val(Seq::<char>::empty()) * 10 + dval(hex_char(n)));
    } else {
        lemma_digits_val_dec(n / 10);
        lemma_hex_char_digit(n % 10);
        let ds = dec_digits(n);
        let dq = dec_digits(n / 10);
        assert(ds == dq.push(hex_char(n % 10)));
        assert(ds.drop_last() =~= dq);
        assert(ds.last() == hex_char(n % 10));
        lemma_fundamental_div_mod(n, 10);
    }
}

/// Scanning the decimal notation of a `u64` followed by a non-digit
/// recovers the value.
proof fn lemma_scan_u64_complete(x: u64, rest: Seq<char>)
    requires
        rest.len() == 0 || !is_dec_char(rest[0]),
    ensures
        scan_u64(dec_digits(x as int) + rest) == Some((x, rest)),
{
    let ds = dec_digits(x as int);
    let v = ds + rest;
    lemma_dec_digits_props(x as int);
    lemma_digits_val_dec(x as int);
    assert(forall|k: int| 0 <= k < ds.len() ==> v[k] == ds[k]);
    assert(forall|k: int| 0 <= k < ds.len() ==> is_dec_char(#[trigger] v[k]));
    if rest.len() > 0 {
        assert(v[ds.len() as int] == rest[0]);
    }
    lemma_scan_digits_split(v, ds.len() as int);
    assert(v.take(ds.len() as int) =~= ds);
    assert(v.skip(ds.len() as int) =~= rest);
    if ds.len() > 1 {
        assert(x >= 1) by {
            if x == 0 {
                assert(dec_digits(0int) =~= seq![hex_char(0int)]);
            }
        }
        assert(ds[0] != '0');
    }
}

/// Scanning a two-digit group recovers its value.
proof fn lemma_scan_pad2_complete(m: int, rest: Seq<char>)
    requires
        0 <= m < 100,
    ensures
        scan_pad2(pad2(m) + rest) == Some((m, rest)),
{
    let v = pad2(m) + rest;
    lemma_hex_char_digit(m / 10);
    lemma_hex_char_digit(m % 10);
    assert(v[0] == hex_char(m / 10) && v[1] == hex_char(m % 10));
    lemma_fundamental_div_mod(m, 10);
    assert(v.skip(2) =~= rest);
}

/// Scanning a four-digit group recovers its value.
proof fn lemma_scan_pad4_complete(m: int, rest: Seq<char>)
    requires
        0 <= m < 10000,
    ensures
        scan_pad4(pad4(m) + rest) == Some((m, rest)),
{
    let v = pad4(m) + rest;
    assert(v =~= pad2(m / 100) + (pad2(m % 100) + rest));
    lemma_scan_pad2_complete(m / 100, pad2(m % 100) + rest);
    lemma_scan_pad2_complete(m % 100, rest);
    lemma_fundamental_div_mod(m, 100);
}

/// Scanning the persisted form of a calendar-consistent timestamp recovers
/// it.
#[verifier::rlimit(100)]
proof fn lemma_scan_ts_complete(t: Timestamp, rest: Seq<char>)
    requires
        ts_valid(t),
    ensures
        scan_ts(ts_chars(t) + rest) == Some((t, rest)),
{
    let v = ts_chars(t) + rest;
    let t9 = seq!['Z'] + rest;
    let t8 = pad2(t.second as int) + t9;
    let t7 = seq![':'] + t8;
    let t6 = pad2(t.minute as int) + t7;
    let t5 = seq![':'] + t6;
    let t4 = pad2(t.hour as int) + t5;
    let t3 = seq!['T'] + t4;
    let t2b = pad2(t.day as int) + t3;
    let t2a = seq!['-'] + t2b;
    let t1b = pad2(t.month as int) + t2a;
    let t1a = seq!['-'] + t1b;
    assert(v =~= pad4(t.year as int) + t1a);
    lemma_scan_pad4_complete(t.year as int, t1a);
    assert(t1a[0] == '-');
    assert(t1a.drop_first() =~= t1b);
    lemma_scan_pad2_complete(t.month as int, t2a);
    assert(t2a[0] == '-');
    assert(t2a.drop_first() =~= t2b);
    lemma_scan_pad2_complete(t.day as int, t3);
    assert(t3[0] == 'T');
    assert(t3.drop_first() =~= t4);
    lemma_scan_pad2_complete(t.hour as int, t5);
    assert(t5[0] == ':');
    assert(t5.drop_first() =~= t6);
    lemma_scan_pad2_complete(t.minute as int, t7);
    assert(t7[0] == ':');
    assert(t7.drop_first() =~= t8);
    lemma_scan_pad2_complete(t.second as int, t9);
    assert(t9[0] == 'Z');
    assert(t9.drop_first() =~= rest);
    let t2 = Timestamp {
        year: (t.year as int) as u16,
        month: (t.month as int) as u8,
        day: (t.day as int) as u8,
        hour: (t.hour as int) as u8,
        minute: (t.minute as int) as u8,
        second: (t.second as int) as u8,
    };
    assert(t2 == t);
}

/// Scanning the persisted form of one record recovers it.
#[verifier::rlimit(100)]
proof fn lemma_scan_record_complete(r: RecordView, rest: Seq<char>)
    requires
        ts_valid(r.time_stamp),
    ensures
        scan_record(record_json(r) + rest) == Some((r, rest)),
{
    let v = record_json(r) + rest;
    let r1 = json_str(r.id) + ",\n      \"path\": "@ + json_str(r.path) + ",\n      \"hash\": "@
        + json_str(r.hash) + ",\n      \"size\": "@ + dec_digits(r.size as int)
        + ",\n      \"time_stamp\": \""@ + ts_chars(r.time_stamp) + "\"\n    }"@ + rest;
    assert(v =~= "    {\n      \"id\": "@ + r1);
    lemma_scan_lit_complete("    {\n      \"id\": "@, r1);
    let r2 = ",\n      \"path\": "@ + json_str(r.path) + ",\n      \"hash\": "@ + json_str(r.hash)
        + ",\n      \"size\": "@ + dec_digits(r.size as int) + ",\n      \"time_stamp\": \""@
        + ts_chars(r.time_stamp) + "\"\n    }"@ + rest;
    assert(r1 =~= json_str(r.id) + r2);
    lemma_scan_jstr_complete(r.id, r2);
    let r3 = json_str(r.path) + ",\n      \"hash\": "@ + json_str(r.hash) + ",\n      \"size\": "@
        + dec_digits(r.size as int) + ",\n      \"time_stamp\": \""@ + ts_chars(r.time_stamp)
        + "\"\n    }"@ + rest;
    assert(r2 =~= ",\n      \"path\": "@ + r3);
    lemma_scan_lit_complete(",\n      \"path\": "@, r3);
    let r4 = ",\n      \"hash\": "@ + json_str(r.hash) + ",\n      \"size\": "@ + dec_digits(
        r.size as int,
    ) + ",\n      \"time_stamp\": \""@ + ts_chars(r.time_stamp) + "\"\n    }"@ + rest;
    assert(r3 =~= json_str(r.path) + r4);
    lemma_scan_jstr_complete(r.path, r4);
    let r5 = json_str(r.hash) + ",\n      \"size\": "@ + dec_digits(r.size as int)
        + ",\n      \"time_stamp\": \""@ + ts_chars(r.time_stamp) + "\"\n    }"@ + rest;
    assert(r4 =~= ",\n      \"hash\": "@ + r5);
    lemma_scan_lit_complete(",\n      \"hash\": "@, r5);
    let r6 = ",\n      \"size\": "@ + dec_digits(r.size as int) + ",\n      \"time_stamp\": \""@
        + ts_chars(r.time_stamp) + "\"\n    }"@ + rest;
    assert(r5 =~= json_str(r.hash) + r6);
    lemma_scan_jstr_complete(r.hash, r6);
    let r7 = dec_digits(r.size as int) + ",\n      \"time_stamp\": \""@ + ts_chars(r.time_stamp)
        + "\"\n    }"@ + rest;
    assert(r6 =~= ",\n      \"size\": "@ + r7);
    lemma_scan_lit_complete(",\n      \"size\": "@, r7);
    let r8 = ",\n      \"time_stamp\": \""@ + ts_chars(r.time_stamp) + "\"\n    }"@ + rest;
    assert(r7 =~= dec_digits(r.size as int) + r8);
    reveal_strlit(",\n      \"time_stamp\": \"");
    assert(r8[0] == ',');
    assert(!is_dec_char(','));
    lemma_scan_u64_complete(r.size, r8);
    let r9 = ts_chars(r.time_stamp) + ("\"\n    }"@ + rest);
    assert(r8 =~= ",\n      \"time_stamp\": \""@ + r9);
    lemma_scan_lit_complete(",\n      \"time_stamp\": \""@, r9);
    lemma_scan_ts_complete(r.time_stamp, "\"\n    }"@ + rest);
    lemma_scan_lit_complete("\"\n    }"@, rest);
    let r10 = RecordView {
        id: r.id,
        path: r.path,
        hash: r.hash,
        size: r.size,
        time_stamp: r.time_stamp,
    };
    assert(r10 == r);
}

/// Concatenation of character sequences is associative.
proof fn lemma_assoc(a: Seq<char>, b: Seq<char>, c: Seq<char>)
    ensures
        a + b + c == a + (b + c),
{
    assert(a + b + c =~= a + (b + c));
}

/// Scanning the joined records of a non-empty list, closed by the list's
/// final bracket, recovers the records.
#[verifier::rlimit(100)]
proof fn lemma_scan_items_complete(rs: Seq<RecordView>, rest: Seq<char>)
    requires
        rs.len() >= 1,
        forall|k: int| 0 <= k < rs.len() ==> ts_valid(#[trigger] rs[k].time_stamp),
    ensures
        scan_items(files_items(rs) + "\n  ]"@ + rest) == Some((rs, rest)),
    decreases rs.len(),
{
    let br = "\n  ]"@;
    let v = files_items(rs) + br + rest;
    reveal_strlit("\n  ]");
    reveal_strlit(",\n");
    let rj = record_json(rs[0]);
    if rs.len() == 1 {
        assert(files_items(rs) == rj);
        lemma_assoc(rj, br, rest);
        let v1 = br + rest;
        assert(v == rj + v1);
        lemma_scan_record_complete(rs[0], v1);
        assert(v1[0] == '\n');
        lemma_scan_lit_complete(br, rest);
        assert(seq![rs[0]] =~= rs);
    } else {
        let c = ",\n"@;
        let tail = rs.drop_first();
        let it = files_items(tail);
        assert(files_items(rs) == rj + c + it);
        lemma_assoc(rj + c + it, br, rest);
        lemma_assoc(rj + c, it, br + rest);
        lemma_assoc(rj, c, it + (br + rest));
        let v2 = it + (br + rest);
        let v1 = c + v2;
        assert(v == rj + v1);
        lemma_scan_record_complete(rs[0], v1);
        assert(v1[0] == ',');
        lemma_scan_lit_complete(c, v2);
        assert(v.len() == rj.len() + 2 + v2.len());
        assert(v2.len() < v.len());
        assert(forall|k: int| 0 <= k < tail.len() ==> ts_valid(#[trigger] tail[k].time_stamp));
        lemma_scan_items_complete(tail, rest);
        lemma_assoc(it, br, rest);
        assert(v2 == it + br + rest);
        assert(seq![rs[0]] + tail =~= rs);
    }
}

/// Scanning the persisted form of a record list recovers the records.
proof fn lemma_scan_files_complete(rs: Seq<RecordView>, rest: Seq<char>)
    requires
        forall|k: int| 0 <= k < rs.len() ==> ts_valid(#[trigger] rs[k].time_stamp),
    ensures
        scan_files(files_json(rs) + rest) == Some((rs, rest)),
{
    let v = files_json(rs) + rest;
    if rs.len() == 0 {
        reveal_strlit("[]");
        assert(v =~= "[]"@ + rest);
        assert(v[0] == '[' && v[1] == ']');
        assert(v.skip(2) =~= rest);
        assert(Seq::<RecordView>::empty() =~= rs);
    } else {
        reveal_strlit("[\n");
        let v1 = files_items(rs) + "\n  ]"@ + rest;
        assert(v =~= "[\n"@ + v1);
        assert(v[0] == '[' && v[1] == '\n');
        lemma_scan_lit_complete("[\n"@, v1);
        lemma_scan_items_complete(rs, rest);
    }
}

/// Law: the persistence round trip is the identity. Parsing the canonical
/// text of any serializable store succeeds and yields that store exactly:
/// version, root directory, both lifecycle timestamps, and every record's
/// id, path, hash, size and timestamp. Together with the serializer's and
/// parser's contracts this says that loading a saved store returns the
/// store that was saved.
#[verifier::rlimit(100)]
#[verifier::spinoff_prover]
pub proof fn lemma_store_roundtrip(s: StoreView)
    requires
        store_serializable(s),
    ensures
        spec_parse_store(store_json(s)) == Some(s),
{
    let v = store_json(s);
    let r10 = "\n}"@ + Seq::<char>::empty();
    let r9 = files_json(s.files) + r10;
    let r8 = "\",\n  \"files\": "@ + r9;
    let r7 = ts_chars(s.updated_at) + r8;
    let r6 = "\",\n  \"updated_at\": \""@ + r7;
    let r5 = ts_chars(s.created_at) + r6;
    let r4 = ",\n  \"created_at\": \""@ + r5;
    let r3 = json_str(s.root_dir) + r4;
    let r2 = ",\n  \"root_dir\": "@ + r3;
    let r1 = json_str(s.version) + r2;
    assert(v =~= "{\n  \"version\": "@ + r1);
    lemma_scan_lit_complete("{\n  \"version\": "@, r1);
    lemma_scan_jstr_complete(s.version, r2);
    lemma_scan_lit_complete(",\n  \"root_dir\": "@, r3);
    lemma_scan_jstr_complete(s.root_dir, r4);
    lemma_scan_lit_complete(",\n  \"created_at\": \""@, r5);
    lemma_scan_ts_complete(s.created_at, r6);
    lemma_scan_lit_complete("\",\n  \"updated_at\": \""@, r7);
    lemma_scan_ts_complete(s.updated_at, r8);
    lemma_scan_lit_complete("\",\n  \"files\": "@, r9);
    lemma_scan_files_complete(s.files, r10);
    lemma_scan_lit_complete("\n}"@, Seq::<char>::empty());
    let s2 = StoreView {
        version: s.version,
        root_dir: s.root_dir,
        created_at: s.created_at,
        updated_at: s.updated_at,
        files: s.files,
    };
    assert(s2 == s);
}

/// A lowercase hex digit is the hex character of its value.
proof fn lemma_hex_char_inverse(c: char)
    requires
        is_hex_char(c),
    ensures
        0 <= hval(c) < 16,
        hex_char(hval(c)) == c,
        is_dec_char(c) ==> 0 <= dval(c) < 10 && hex_char(dval(c)) == c,
{
}

/// A consumed literal is a prefix of the text.
proof fn lemma_scan_lit_sound(v: Seq<char>, lit: Seq<char>)
    requires
        scan_lit(v, lit) is Some,
    ensures
        v == lit + scan_lit(v, lit)->0,
{
    assert(v =~= v.take(lit.len() as int) + v.skip(lit.len() as int));
}

/// A text the string scanner accepts is the escaping of what it decoded,
/// followed by the closing quote and the remainder.
proof fn lemma_scan_str_sound(v: Seq<char>)
    requires
        scan_str(v) is Some,
    ensures
        v == escape((scan_str(v)->0).0) + seq!['"'] + (scan_str(v)->0).1,
    decreases v.len(),
{
    let p = scan_str(v)->0;
    if v[0] == '"' {
        assert(escape(p.0) =~= Seq::<char>::empty());
        assert(v =~= escape(p.0) + seq!['"'] + p.1);
    } else if v[0] == '\\' {
        if v.len() >= 2 && (v[1] == '"' || v[1] == '\\') {
            lemma_scan_str_sound(v.skip(2));
            let q = scan_str(v.skip(2))->0;
            assert(p.0 == seq![v[1]] + q.0 && p.1 == q.1);
            assert(p.0[0] == v[1]);
            assert(p.0.drop_first() =~= q.0);
            assert(escape(p.0) == esc_char(v[1]) + escape(q.0));
            assert(esc_char(v[1]) =~= seq!['\\', v[1]]);
            assert(v =~= seq![v[0], v[1]] + v.skip(2));
            assert(escape(p.0) + seq!['"'] + p.1 =~= seq!['\\', v[1]] + (escape(q.0)
                + seq!['"'] + q.1));
            assert(v =~= escape(p.0) + seq!['"'] + p.1);
        } else {
            let code = hval(v[4]) * 16 + hval(v[5]);
            let e = (code as u32) as char;
            lemma_scan_str_sound(v.skip(6));
            let q = scan_str(v.skip(6))->0;
            assert(p.0 == seq![e] + q.0 && p.1 == q.1);
            assert(p.0[0] == e);
            assert(p.0.drop_first() =~= q.0);
            assert(escape(p.0) == esc_char(e) + escape(q.0));
            lemma_hex_char_inverse(v[4]);
            lemma_hex_char_inverse(v[5]);
            assert(e as u32 == code);
            vstd::arithmetic::div_mod::lemma_fundamental_div_mod_converse(
                code,
                16,
                hval(v[4]),
                hval(v[5]),
            );
            assert(code / 16 == hval(v[4]) && code % 16 == hval(v[5]));
            assert(esc_char(e) =~= seq!['\\', 'u', '0', '0', v[4], v[5]]);
            assert(v =~= seq![v[0], v[1], v[2], v[3], v[4], v[5]] + v.skip(6));
            assert(escape(p.0) + seq!['"'] + p.1 =~= seq!['\\', 'u', '0', '0', v[4], v[5]] + (
            escape(q.0) + seq!['"'] + q.1));
            assert(v =~= escape(p.0) + seq!['"'] + p.1);
        }
    } else {
        lemma_scan_str_sound(v.skip(1));
        let q = scan_str(v.skip(1))->0;
        assert(p.0 == seq![v[0]] + q.0 && p.1 == q.1);
        assert(p.0[0] == v[0]);
        assert(p.0.drop_first() =~= q.0);
        assert(escape(p.0) == esc_char(v[0]) + escape(q.0));
        assert(esc_char(v[0]) =~= seq![v[0]]);
        assert(v =~= seq![v[0]] + v.skip(1));
        assert(escape(p.0) + seq!['"'] + p.1 =~= seq![v[0]] + (escape(q.0) + seq!['"'] + q.1));
        assert(v =~= escape(p.0) + seq!['"'] + p.1);
    }
}

/// A text the string-token scanner accepts is a JSON string token holding
/// what it decoded, followed by the remainder.
proof fn lemma_scan_jstr_sound(v: Seq<char>)
    requires
        scan_jstr(v) is Some,
    ensures
        v == json_str((scan_jstr(v)->0).0) + (scan_jstr(v)->0).1,
{
    lemma_scan_str_sound(v.drop_first());
    let p = scan_jstr(v)->0;
    assert(v.drop_first() == escape(p.0) + seq!['"'] + p.1);
    assert(v =~= seq![v[0]] + v.drop_first());
    assert(v =~= json_str(p.0) + p.1);
}


/// The digit scanner splits the text into its digit prefix and remainder.
proof fn lemma_scan_digits_sound(v: Seq<char>)
    ensures
        v == scan_digits(v).0 + scan_digits(v).1,
        forall|k: int|
            0 <= k < scan_digits(v).0.len() ==> is_dec_char(#[trigger] scan_digits(v).0[k]),
    decreases v.len(),
{
    let p = scan_digits(v);
    if v.len() > 0 && is_dec_char(v[0]) {
        lemma_scan_digits_sound(v.drop_first());
        let q = scan_digits(v.drop_first());
        assert(p.0 == seq![v[0]] + q.0 && p.1 == q.1);
        assert(v =~= seq![v[0]] + v.drop_first());
        assert(p.0 + p.1 =~= seq![v[0]] + (q.0 + q.1));
        assert(v =~= p.0 + p.1);
        assert(forall|k: int| 1 <= k < p.0.len() ==> p.0[k] == q.0[k - 1]);
    } else {
        assert(v =~= p.0 + p.1);
    }
}

/// A digit string without a leading zero has a positive value.
proof fn lemma_digits_val_pos(ds: Seq<char>)
    requires
        ds.len() >= 1,
        forall|k: int| 0 <= k < ds.len() ==> is_dec_char(#[trigger] ds[k]),
        ds[0] != '0',
    ensures
        digits_val(ds) >= 1,
    decreases ds.len(),
{
    let dq = ds.drop_last();
    if ds.len() == 1 {
        assert(digits_val(ds) == digits_val(dq) * 10 + dval(ds.last()));
        assert(dq.len() == 0);
        assert(ds.last() == ds[0]);
        assert(dval(ds[0]) >= 1);
    } else {
        assert(dq[0] == ds[0]);
        lemma_digits_val_pos(dq);
        assert(dval(ds.last()) >= 0);
        assert(digits_val(ds) == digits_val(dq) * 10 + dval(ds.last()));
    }
}

/// A digit string without a leading zero is the decimal notation of its
/// value.
proof fn lemma_dec_digits_of_val(ds: Seq<char>)
    requires
        ds.len() >= 1,
        forall|k: int| 0 <= k < ds.len() ==> is_dec_char(#[trigger] ds[k]),
        ds.len() > 1 ==> ds[0] != '0',
    ensures
        digits_val(ds) >= 0,
        dec_digits(digits_val(ds)) == ds,
    decreases ds.len(),
{
    lemma_digits_val_nonneg(ds);
    let d = ds.last();
    lemma_hex_char_inverse(d);
    if ds.len() == 1 {
        assert(ds.drop_last().len() == 0);
        assert(digits_val(ds.drop_last()) == 0);
        assert(digits_val(ds) == digits_val(ds.drop_last()) * 10 + dval(ds.last()));
        assert(digits_val(ds) == dval(d));
        assert(dec_digits(dval(d)) =~= seq![hex_char(dval(d))]);
        assert(seq![hex_char(dval(d))] =~= ds);
    } else {
        let dq = ds.drop_last();
        assert(dq[0] == ds[0]);
        assert(forall|k: int| 0 <= k < dq.len() ==> is_dec_char(#[trigger] dq[k]));
        lemma_dec_digits_of_val(dq);
        lemma_digits_val_pos(dq);
        let vq = digits_val(dq);
        let val = digits_val(ds);
        assert(val == vq * 10 + dval(d));
        assert(val >= 10) by {
            assert(vq >= 1);
            assert(vq * 10 >= 10) by (nonlinear_arith)
                requires
                    vq >= 1,
            ;
        }
        vstd::arithmetic::div_mod::lemma_fundamental_div_mod_converse(val, 10, vq, dval(d));
        assert(val / 10 == vq && val % 10 == dval(d));
        assert(dec_digits(val) == dec_digits(vq).push(hex_char(dval(d))));
        assert(dq.push(d) =~= ds);
    }
}

/// A text the number scanner accepts is the decimal notation of the value
/// it read, followed by the remainder.
proof fn lemma_scan_u64_sound(v: Seq<char>)
    requires
        scan_u64(v) is Some,
    ensures
        v == dec_digits((scan_u64(v)->0).0 as int) + (scan_u64(v)->0).1,
{
    let ds = scan_digits(v).0;
    lemma_scan_digits_sound(v);
    lemma_dec_digits_of_val(ds);
    assert((scan_u64(v)->0).0 as int == digits_val(ds));
}

/// A text the two-digit scanner accepts is the two-digit group of the
/// value it read, followed by the remainder.
proof fn lemma_scan_pad2_sound(v: Seq<char>)
    requires
        scan_pad2(v) is Some,
    ensures
        0 <= (scan_pad2(v)->0).0 < 100,
        v == pad2((scan_pad2(v)->0).0) + (scan_pad2(v)->0).1,
{
    let m = (scan_pad2(v)->0).0;
    lemma_hex_char_inverse(v[0]);
    lemma_hex_char_inverse(v[1]);
    vstd::arithmetic::div_mod::lemma_fundamental_div_mod_converse(m, 10, dval(v[0]), dval(v[1]));
    assert(pad2(m) =~= seq![v[0], v[1]]);
    assert(v =~= seq![v[0], v[1]] + v.skip(2));
}

/// A text the four-digit scanner accepts is the four-digit group of the
/// value it read, followed by the remainder.
proof fn lemma_scan_pad4_sound(v: Seq<char>)
    requires
        scan_pad4(v) is Some,
    ensures
        0 <= (scan_pad4(v)->0).0 < 10000,
        v == pad4((scan_pad4(v)->0).0) + (scan_pad4(v)->0).1,
{
    let hi = (scan_pad2(v)->0).0;
    let v1 = (scan_pad2(v)->0).1;
    let lo = (scan_pad2(v1)->0).0;
    let m = (scan_pad4(v)->0).0;
    lemma_scan_pad2_sound(v);
    lemma_scan_pad2_sound(v1);
    vstd::arithmetic::div_mod::lemma_fundamental_div_mod_converse(m, 100, hi, lo);
    assert(m / 100 == hi && m % 100 == lo);
    lemma_assoc(pad2(hi), pad2(lo), (scan_pad4(v)->0).1);
    assert(v == pad4(m) + (scan_pad4(v)->0).1);
}


/// A text the timestamp scanner accepts is the persisted form of the
/// calendar-consistent timestamp it read, followed by the remainder.
#[verifier::rlimit(100)]
#[verifier::spinoff_prover]
proof fn lemma_scan_ts_sound(v: Seq<char>)
    requires
        scan_ts(v) is Some,
    ensures
        ts_valid((scan_ts(v)->0).0),
        v == ts_chars((scan_ts(v)->0).0) + (scan_ts(v)->0).1,
{
    let t = (scan_ts(v)->0).0;
    let rest = (scan_ts(v)->0).1;
    let y = (scan_pad4(v)->0).0;
    let v1 = (scan_pad4(v)->0).1;
    lemma_scan_pad4_sound(v);
    assert(v1 =~= seq![v1[0]] + v1.drop_first());
    let w1 = v1.drop_first();
    let mo = (scan_pad2(w1)->0).0;
    let v2 = (scan_pad2(w1)->0).1;
    lemma_scan_pad2_sound(w1);
    assert(v2 =~= seq![v2[0]] + v2.drop_first());
    let w2 = v2.drop_first();
    let d = (scan_pad2(w2)->0).0;
    let v3 = (scan_pad2(w2)->0).1;
    lemma_scan_pad2_sound(w2);
    assert(v3 =~= seq![v3[0]] + v3.drop_first());
    let w3 = v3.drop_first();
    let h = (scan_pad2(w3)->0).0;
    let v4 = (scan_pad2(w3)->0).1;
    lemma_scan_pad2_sound(w3);
    assert(v4 =~= seq![v4[0]] + v4.drop_first());
    let w4 = v4.drop_first();
    let mi = (scan_pad2(w4)->0).0;
    let v5 = (scan_pad2(w4)->0).1;
    lemma_scan_pad2_sound(w4);
    assert(v5 =~= seq![v5[0]] + v5.drop_first());
    let w5 = v5.drop_first();
    let sec = (scan_pad2(w5)->0).0;
    let v6 = (scan_pad2(w5)->0).1;
    lemma_scan_pad2_sound(w5);
    assert(v6 =~= seq![v6[0]] + v6.drop_first());
    assert(t.year as int == y && t.month as int == mo && t.day as int == d && t.hour as int == h
        && t.minute as int == mi && t.second as int == sec);
    assert(rest == v6.drop_first());
    assert(v =~= ts_chars(t) + rest);
}

/// A text the record scanner accepts is the persisted form of the record
/// it read, followed by the remainder.
#[verifier::rlimit(100)]
#[verifier::spinoff_prover]
proof fn lemma_scan_record_sound(v: Seq<char>)
    requires
        scan_record(v) is Some,
    ensures
        ts_valid((scan_record(v)->0).0.time_stamp),
        v == record_json((scan_record(v)->0).0) + (scan_record(v)->0).1,
{
    let r = (scan_record(v)->0).0;
    let rest = (scan_record(v)->0).1;
    let l1 = "    {\n      \"id\": "@;
    let l2 = ",\n      \"path\": "@;
    let l3 = ",\n      \"hash\": "@;
    let l4 = ",\n      \"size\": "@;
    let l5 = ",\n      \"time_stamp\": \""@;
    let l6 = "\"\n    }"@;
    let v1 = scan_lit(v, l1)->0;
    lemma_scan_lit_sound(v, l1);
    let v2 = (scan_jstr(v1)->0).1;
    lemma_scan_jstr_sound(v1);
    let v3 = scan_lit(v2, l2)->0;
    lemma_scan_lit_sound(v2, l2);
    let v4 = (scan_jstr(v3)->0).1;
    lemma_scan_jstr_sound(v3);
    let v5 = scan_lit(v4, l3)->0;
    lemma_scan_lit_sound(v4, l3);
    let v6 = (scan_jstr(v5)->0).1;
    lemma_scan_jstr_sound(v5);
    let v7 = scan_lit(v6, l4)->0;
    lemma_scan_lit_sound(v6, l4);
    let v8 = (scan_u64(v7)->0).1;
    lemma_scan_u64_sound(v7);
    let v9 = scan_lit(v8, l5)->0;
    lemma_scan_lit_sound(v8, l5);
    let v10 = (scan_ts(v9)->0).1;
    lemma_scan_ts_sound(v9);
    lemma_scan_lit_sound(v10, l6);

    let js_id = json_str(r.id);
    let js_path = json_str(r.path);
    let js_hash = json_str(r.hash);
    let dd = dec_digits(r.size as int);
    let tc = ts_chars(r.time_stamp);
    let x1 = l1 + js_id;
    let x2 = x1 + l2;
    let x3 = x2 + js_path;
    let x4 = x3 + l3;
    let x5 = x4 + js_hash;
    let x6 = x5 + l4;
    let x7 = x6 + dd;
    let x8 = x7 + l5;
    let x9 = x8 + tc;
    assert(record_json(r) == x9 + l6);

    let a10 = l6 + rest;
    let a9 = tc + a10;
    let a8 = l5 + a9;
    let a7 = dd + a8;
    let a6 = l4 + a7;
    let a5 = js_hash + a6;
    let a4 = l3 + a5;
    let a3 = js_path + a4;
    let a2 = l2 + a3;
    let a1 = js_id + a2;
    assert(v10 == a10);
    assert(v9 == a9);
    assert(v8 == a8);
    assert(v7 == a7);
    assert(v6 == a6);
    assert(v5 == a5);
    assert(v4 == a4);
    assert(v3 == a3);
    assert(v2 == a2);
    assert(v1 == a1);
    lemma_assoc(x9, l6, rest);
    lemma_assoc(x8, tc, a10);
    lemma_assoc(x7, l5, a9);
    lemma_assoc(x6, dd, a8);
    lemma_assoc(x5, l4, a7);
    lemma_assoc(x4, js_hash, a6);
    lemma_assoc(x3, l3, a5);
    lemma_assoc(x2, js_path, a4);
    lemma_assoc(x1, l2, a3);
    lemma_assoc(l1, js_id, a2);
    assert(record_json(r) + rest == l1 + a1);
    assert(v == l1 + v1);
}


/// A text the record-list-items scanner accepts is the joined persisted
/// form of the records it read, closed by the list's final bracket.
#[verifier::rlimit(100)]
#[verifier::spinoff_prover]
proof fn lemma_scan_items_sound(v: Seq<char>)
    requires
        scan_items(v) is Some,
    ensures
        (scan_items(v)->0).0.len() >= 1,
        forall|k: int|
            0 <= k < (scan_items(v)->0).0.len() ==> ts_valid(
                #[trigger] (scan_items(v)->0).0[k].time_stamp,
            ),
        v == files_items((scan_items(v)->0).0) + "\n  ]"@ + (scan_items(v)->0).1,
    decreases v.len(),
{
    let rs = (scan_items(v)->0).0;
    let rest = (scan_items(v)->0).1;
    let rec = (scan_record(v)->0).0;
    let v1 = (scan_record(v)->0).1;
    let rj = record_json(rec);
    let br = "\n  ]"@;
    lemma_scan_record_sound(v);
    if v1.len() >= 1 && v1[0] == ',' {
        let c = ",\n"@;
        let v2 = scan_lit(v1, c)->0;
        lemma_scan_lit_sound(v1, c);
        lemma_scan_items_sound(v2);
        let tail_rs = (scan_items(v2)->0).0;
        assert(rs == seq![rec] + tail_rs);
        assert(rs[0] == rec);
        assert(rs.drop_first() =~= tail_rs);
        assert(rs.len() >= 2);
        let fi = files_items(tail_rs);
        assert(files_items(rs) == rj + c + fi);
        lemma_assoc(fi, br, rest);
        assert(v2 == fi + (br + rest));
        lemma_assoc(rj + c + fi, br, rest);
        lemma_assoc(rj + c, fi, br + rest);
        lemma_assoc(rj, c, fi + (br + rest));
        assert(files_items(rs) + br + rest == rj + (c + v2));
        assert(v1 == c + v2);
        assert(v == rj + v1);
        assert(forall|k: int| 1 <= k < rs.len() ==> rs[k] == tail_rs[k - 1]);
    } else {
        let v2 = scan_lit(v1, br)->0;
        lemma_scan_lit_sound(v1, br);
        assert(rs == seq![rec]);
        assert(rs[0] == rec && rs.len() == 1);
        assert(files_items(rs) == rj);
        lemma_assoc(rj, br, rest);
        assert(v1 == br + rest);
        assert(v == rj + v1);
    }
}

/// A text the record-list scanner accepts is the persisted form of the
/// records it read, followed by the remainder.
proof fn lemma_scan_files_sound(v: Seq<char>)
    requires
        scan_files(v) is Some,
    ensures
        forall|k: int|
            0 <= k < (scan_files(v)->0).0.len() ==> ts_valid(
                #[trigger] (scan_files(v)->0).0[k].time_stamp,
            ),
        v == files_json((scan_files(v)->0).0) + (scan_files(v)->0).1,
{
    let rs = (scan_files(v)->0).0;
    let rest = (scan_files(v)->0).1;
    if v.len() >= 2 && v[0] == '[' && v[1] == ']' {
        reveal_strlit("[]");
        assert(rs.len() == 0);
        assert(files_json(rs) == "[]"@);
        assert("[]"@.len() == 2 && "[]"@[0] == '[' && "[]"@[1] == ']');
        assert(v =~= "[]"@ + v.skip(2));
    } else {
        let lb = "[\n"@;
        let v1 = scan_lit(v, lb)->0;
        lemma_scan_lit_sound(v, lb);
        lemma_scan_items_sound(v1);
        let br = "\n  ]"@;
        let fi = files_items(rs);
        assert(files_json(rs) == lb + fi + br);
        lemma_assoc(fi, br, rest);
        assert(v1 == fi + (br + rest));
        lemma_assoc(lb + fi, br, rest);
        lemma_assoc(lb, fi, br + rest);
        assert(files_json(rs) + rest == lb + v1);
        assert(v == lb + v1);
    }
}

/// Law: the persistence round trip is the identity in the other direction
/// too. A text that parses as a store is exactly the canonical text of
/// that store, which is serializable; so saving a loaded store writes back
/// exactly the text that was loaded.
#[verifier::rlimit(100)]
#[verifier::spinoff_prover]
pub proof fn lemma_store_parse_sound(v: Seq<char>, s: StoreView)
    requires
        spec_parse_store(v) == Some(s),
    ensures
        store_serializable(s),
        v == store_json(s),
{
    let l1 = "{\n  \"version\": "@;
    let l2 = ",\n  \"root_dir\": "@;
    let l3 = ",\n  \"created_at\": \""@;
    let l4 = "\",\n  \"updated_at\": \""@;
    let l5 = "\",\n  \"files\": "@;
    let l6 = "\n}"@;
    let v1 = scan_lit(v, l1)->0;
    lemma_scan_lit_sound(v, l1);
    let v2 = (scan_jstr(v1)->0).1;
    lemma_scan_jstr_sound(v1);
    let v3 = scan_lit(v2, l2)->0;
    lemma_scan_lit_sound(v2, l2);
    let v4 = (scan_jstr(v3)->0).1;
    lemma_scan_jstr_sound(v3);
    let v5 = scan_lit(v4, l3)->0;
    lemma_scan_lit_sound(v4, l3);
    let v6 = (scan_ts(v5)->0).1;
    lemma_scan_ts_sound(v5);
    let v7 = scan_lit(v6, l4)->0;
    lemma_scan_lit_sound(v6, l4);
    let v8 = (scan_ts(v7)->0).1;
    lemma_scan_ts_sound(v7);
    let v9 = scan_lit(v8, l5)->0;
    lemma_scan_lit_sound(v8, l5);
    let v10 = (scan_files(v9)->0).1;
    lemma_scan_files_sound(v9);
    let v11 = scan_lit(v10, l6)->0;
    lemma_scan_lit_sound(v10, l6);
    assert(v11.len() == 0);

    let js_version = json_str(s.version);
    let js_root = json_str(s.root_dir);
    let tc_created = ts_chars(s.created_at);
    let tc_updated = ts_chars(s.updated_at);
    let fj = files_json(s.files);
    let x1 = l1 + js_version;
    let x2 = x1 + l2;
    let x3 = x2 + js_root;
    let x4 = x3 + l3;
    let x5 = x4 + tc_created;
    let x6 = x5 + l4;
    let x7 = x6 + tc_updated;
    let x8 = x7 + l5;
    let x9 = x8 + fj;
    assert(store_json(s) == x9 + l6);

    let a10 = l6 + v11;
    let a9 = fj + a10;
    let a8 = l5 + a9;
    let a7 = tc_updated + a8;
    let a6 = l4 + a7;
    let a5 = tc_created + a6;
    let a4 = l3 + a5;
    let a3 = js_root + a4;
    let a2 = l2 + a3;
    let a1 = js_version + a2;
    assert(v10 == a10);
    assert(v9 == a9);
    assert(v8 == a8);
    assert(v7 == a7);
    assert(v6 == a6);
    assert(v5 == a5);
    assert(v4 == a4);
    assert(v3 == a3);
    assert(v2 == a2);
    assert(v1 == a1);
    lemma_assoc(x9, l6, v11);
    lemma_assoc(x8, fj, a10);
    lemma_assoc(x7, l5, a9);
    lemma_assoc(x6, tc_updated, a8);
    lemma_assoc(x5, l4, a7);
    lemma_assoc(x4, tc_created, a6);
    lemma_assoc(x3, l3, a5);
    lemma_assoc(x2, js_root, a4);
    lemma_assoc(x1, l2, a3);
    lemma_assoc(l1, js_version, a2);
    assert(store_json(s) + v11 == l1 + a1);
    assert(v == l1 + v1);
    assert(store_json(s) + v11 =~= store_json(s));
    assert forall|k: int| 0 <= k < s.files.len() implies ts_valid(
        #[trigger] s.files[k].time_stamp,
    ) by {
        assert(s.files[k] == (scan_files(v9)->0).0[k]);
    }
}

/// Law: no two serializable stores share a persisted text. Together with
/// the round trip this makes the canonical text a faithful identity for
/// the store's whole content.
pub proof fn lemma_store_json_injective(s1: StoreView, s2: StoreView)
    requires
        store_serializable(s1),
        store_serializable(s2),
        store_json(s1) == store_json(s2),
    ensures
        s1 == s2,
{
    lemma_store_roundtrip(s1);
    lemma_store_roundtrip(s2);
}

} // verus!
