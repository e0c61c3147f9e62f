//! The parser for the persisted form of a store.
//!
//! The grammar is the canonical layout of `codec`: what the serializer
//! emits is the only shape the store file ever takes, and the parser
//! accepts exactly that shape. Every scanning step has a spec-level
//! counterpart (`scan_*`), the executable functions are proved to agree
//! with it, and the sibling `roundtrip` module proves that scanning the
//! canonical text of a store recovers the store.

use crate::codec::chars_to_string;
use crate::codec::dval;
use crate::codec::is_dec_char;
use crate::codec::views_of;
use crate::errors::DatabaseError;
use crate::errors::InitError;
use crate::hash::is_hex_char;
use crate::models::store_serializable;
use crate::models::Database;
use crate::models::FileRecord;
use crate::models::HexStirng;
use crate::models::RecordView;
use crate::models::StoreView;
use crate::time::ts_valid;
use crate::time::Timestamp;
use crate::VERSION;
use vstd::prelude::*;

verus! {

/// The numeric value of a lowercase hex digit character.
pub open spec fn hval(c: char) -> int {
    if is_dec_char(c) {
        dval(c)
    } else {
        c as u32 as int - 87
    }
}

/// Consumes `lit` from the front of `v`.
pub open spec fn scan_lit(v: Seq<char>, lit: Seq<char>) -> Option<Seq<char>> {
    if lit.len() <= v.len() && v.take(lit.len() as int) == lit {
        Some(v.skip(lit.len() as int))
    } else {
        None
    }
}

/// Consumes the escaped body and closing quote of a JSON string token,
/// yielding the unescaped characters and the remainder. Only the canonical
/// escaping that [`crate::codec::esc_char`] produces is accepted.
pub open spec fn scan_str(v: Seq<char>) -> Option<(Seq<char>, Seq<char>)>
    decreases v.len(),
{
    if v.len() == 0 {
        None
    } else if v[0] == '"' {
        Some((Seq::empty(), v.drop_first()))
    } else if v[0] == '\\' {
        if v.len() >= 2 && (v[1] == '"' || v[1] == '\\') {
            match scan_str(v.skip(2)) {
                Some(p) => Some((seq![v[1]] + p.0, p.1)),
                None => None,
            }
        } else if v.len() >= 6 && v[1] == 'u' && v[2] == '0' && v[3] == '0' && is_hex_char(v[4])
            && is_hex_char(v[5]) && hval(v[4]) * 16 + hval(v[5]) < 32 {
            match scan_str(v.skip(6)) {
                Some(p) => Some((seq![((hval(v[4]) * 16 + hval(v[5])) as u32) as char] + p.0, p.1)),
                None => None,
            }
        } else {
            None
        }
    } else if (v[0] as u32) < 32 {
        None
    } else {
        match scan_str(v.skip(1)) {
            Some(p) => Some((seq![v[0]] + p.0, p.1)),
            None => None,
        }
    }
}

/// Consumes a whole JSON string token, opening quote included.
pub open spec fn scan_jstr(v: Seq<char>) -> Option<(Seq<char>, Seq<char>)> {
    if v.len() >= 1 && v[0] == '"' {
        scan_str(v.drop_first())
    } else {
        None
    }
}

/// Splits `v` into its longest decimal-digit prefix and the remainder.
pub open spec fn scan_digits(v: Seq<char>) -> (Seq<char>, Seq<char>)
    decreases v.len(),
{
    if v.len() > 0 && is_dec_char(v[0]) {
        let p = scan_digits(v.drop_first());
        (seq![v[0]] + p.0, p.1)
    } else {
        (Seq::empty(), v)
    }
}

/// The numeric value of a digit string, most significant digit first.
pub open spec fn digits_val(ds: Seq<char>) -> int
    decreases ds.len(),
{
    if ds.len() == 0 {
        0
    } else {
        digits_val(ds.drop_last()) * 10 + dval(ds.last())
    }
}

/// Consumes the canonical decimal notation of a `u64`: a nonempty digit
/// run, no leading zero, value within range.
pub open spec fn scan_u64(v: Seq<char>) -> Option<(u64, Seq<char>)> {
    let p = scan_digits(v);
    if p.0.len() == 0 {
        None
    } else if p.0.len() > 1 && p.0[0] == '0' {
        None
    } else if digits_val(p.0) > u64::MAX {
        None
    } else {
        Some((digits_val(p.0) as u64, p.1))
    }
}

/// Consumes a two-digit zero-padded decimal.
pub open spec fn scan_pad2(v: Seq<char>) -> Option<(int, Seq<char>)> {
    if v.len() >= 2 && is_dec_char(v[0]) && is_dec_char(v[1]) {
        Some((dval(v[0]) * 10 + dval(v[1]), v.skip(2)))
    } else {
        None
    }
}

/// Consumes a four-digit zero-padded decimal: two two-digit groups.
pub open spec fn scan_pad4(v: Seq<char>) -> Option<(int, Seq<char>)> {
    match scan_pad2(v) {
        None => None,
        Some((hi, v1)) => match scan_pad2(v1) {
            None => None,
            Some((lo, v2)) => Some((hi * 100 + lo, v2)),
        },
    }
}

/// Consumes a timestamp in its persisted form, accepting only
/// calendar-consistent field values.
pub open spec fn scan_ts(v: Seq<char>) -> Option<(Timestamp, Seq<char>)> {
    match scan_pad4(v) {
        None => None,
        Some((y, v1)) => if v1.len() >= 1 && v1[0] == '-' {
            match scan_pad2(v1.drop_first()) {
                None => None,
                Some((mo, v2)) => if v2.len() >= 1 && v2[0] == '-' {
                    match scan_pad2(v2.drop_first()) {
                        None => None,
                        Some((d, v3)) => if v3.len() >= 1 && v3[0] == 'T' {
                            match scan_pad2(v3.drop_first()) {
                                None => None,
                                Some((h, v4)) => if v4.len() >= 1 && v4[0] == ':' {
                                    match scan_pad2(v4.drop_first()) {
                                        None => None,
                                        Some((mi, v5)) => if v5.len() >= 1 && v5[0] == ':' {
                                            match scan_pad2(v5.drop_first()) {
                                                None => None,
                                                Some((s, v6)) => if v6.len() >= 1 && v6[0]
                                                    == 'Z' {
                                                    let t = Timestamp {
                                                        year: y as u16,
                                                        month: mo as u8,
                                                        day: d as u8,
                                                        hour: h as u8,
                                                        minute: mi as u8,
                                                        second: s as u8,
                                                    };
                                                    if ts_valid(t) {
                                                        Some((t, v6.drop_first()))
                                                    } else {
                                                        None
                                                    }
                                                } else {
                                                    None
                                                },
                                            }
                                        } else {
                                            None
                                        },
                                    }
                                } else {
                                    None
                                },
                            }
                        } else {
                            None
                        },
                    }
                } else {
                    None
                },
            }
        } else {
            None
        },
    }
}

/// The numeric value of a lowercase hex digit character.
fn hval_exec(c: char) -> (r: u8)
    requires
        is_hex_char(c),
    ensures
        r as int == hval(c),
        r < 16,
{
    let u = c as u32;
    if u <= 57 {
        (u - 48) as u8
    } else {
        (u - 87) as u8
    }
}

/// Whether `c` is a decimal digit.
fn is_dec_char_exec(c: char) -> (r: bool)
    ensures
        r == is_dec_char(c),
{
    let u = c as u32;
    48 <= u && u <= 57
}

/// Consumes `lit` at position `i` of `v`.
fn p_lit(v: &Vec<char>, i: usize, lit: &str) -> (r: Option<usize>)
    requires
        i <= v@.len(),
    ensures
        match r {
            Some(j) => i <= j <= v@.len() && j == i + lit@.len() && scan_lit(
                v@.skip(i as int),
                lit@,
            ) == Some(v@.skip(j as int)),
            None => scan_lit(v@.skip(i as int), lit@) is None,
        },
{
    let n = lit.unicode_len();
    let vn = v.len();
    if n > vn - i {
        return None;
    }
    let mut k: usize = 0;
    while k < n
        invariant
            i + n <= vn,
            vn == v@.len(),
            k <= n,
            n == lit@.len(),
            forall|m: int| 0 <= m < k ==> v@[i + m] == lit@[m],
        decreases n - k,
    {
        if v[i + k] != lit.get_char(k) {
            proof {
                let suf = v@.skip(i as int);
                assert(suf[k as int] == v@[i + k]);
                assert(suf.take(n as int)[k as int] != lit@[k as int]);
            }
            return None;
        }
        k = k + 1;
    }
    proof {
        let suf = v@.skip(i as int);
        assert(suf.take(n as int) =~= lit@);
        assert(suf.skip(n as int) =~= v@.skip(i + n));
    }
    Some(i + n)
}

/// Consumes the escaped body and closing quote of a JSON string token,
/// pushing the unescaped characters onto `acc`.
fn p_str_body(v: &Vec<char>, i: usize, acc: &mut Vec<char>) -> (r: Option<usize>)
    requires
        i <= v@.len(),
    ensures
        match r {
            Some(j) => {
                &&& i <= j <= v@.len()
                &&& final(acc)@.len() >= old(acc)@.len()
                &&& final(acc)@.take(old(acc)@.len() as int) == old(acc)@
                &&& scan_str(v@.skip(i as int)) == Some(
                    (final(acc)@.skip(old(acc)@.len() as int), v@.skip(j as int)),
                )
            },
            None => scan_str(v@.skip(i as int)) is None,
        },
    decreases v@.len() - i,
{
    let n = v.len();
    proof {
        let suf = v@.skip(i as int);
        assert(suf.len() == n - i);
    }
    if i >= n {
        return None;
    }
    let c = v[i];
    proof {
        assert(v@.skip(i as int)[0] == c);
    }
    if c == '"' {
        proof {
            assert(v@.skip(i as int).drop_first() =~= v@.skip(i + 1));
            assert(acc@.skip(acc@.len() as int) =~= Seq::<char>::empty());
            assert(acc@.take(acc@.len() as int) =~= acc@);
        }
        return Some(i + 1);
    }
    if c == '\\' {
        if i + 1 < n && (v[i + 1] == '"' || v[i + 1] == '\\') {
            let e = v[i + 1];
            proof {
                assert(v@.skip(i as int)[1] == e);
            }
            acc.push(e);
            let ghost mid = acc@;
            let r = p_str_body(v, i + 2, acc);
            proof {
                assert(v@.skip(i as int).skip(2) =~= v@.skip(i + 2));
            }
            match r {
                Some(j) => {
                    proof {
                        assert(mid == old(acc)@.push(e));
                        assert(acc@.take(mid.len() as int) == mid);
                        assert(acc@.take(mid.len() as int)[old(acc)@.len() as int] == e);
                        assert(acc@[old(acc)@.len() as int] == e);
                        assert(acc@.take(old(acc)@.len() as int) =~= old(acc)@);
                        assert(acc@.skip(old(acc)@.len() as int) =~= seq![e] + acc@.skip(
                            mid.len() as int,
                        ));
                    }
                    return Some(j);
                },
                None => {
                    return None;
                },
            }
        } else if n - i > 5 && v[i + 1] == 'u' && v[i + 2] == '0' && v[i + 3] == '0' {
            let c4 = v[i + 4];
            let c5 = v[i + 5];
            proof {
                let suf = v@.skip(i as int);
                assert(suf[1] == v@[i + 1] && suf[2] == v@[i + 2] && suf[3] == v@[i + 3] && suf[4]
                    == v@[i + 4] && suf[5] == v@[i + 5]);
            }
            let h4 = is_hex_char_exec(c4);
            let h5 = is_hex_char_exec(c5);
            if !(h4 && h5) {
                return None;
            }
            let code: u8 = hval_exec(c4) * 16 + hval_exec(c5);
            if code >= 32 {
                return None;
            }
            let e = code as char;
            proof {
                assert(e == ((hval(c4) * 16 + hval(c5)) as u32) as char);
            }
            acc.push(e);
            let ghost mid = acc@;
            let r = p_str_body(v, i + 6, acc);
            proof {
                assert(v@.skip(i as int).skip(6) =~= v@.skip(i + 6));
            }
            match r {
                Some(j) => {
                    proof {
                        assert(mid == old(acc)@.push(e));
                        assert(acc@.take(mid.len() as int) == mid);
                        assert(acc@.take(mid.len() as int)[old(acc)@.len() as int] == e);
                        assert(acc@[old(acc)@.len() as int] == e);
                        assert(acc@.take(old(acc)@.len() as int) =~= old(acc)@);
                        assert(acc@.skip(old(acc)@.len() as int) =~= seq![e] + acc@.skip(
                            mid.len() as int,
                        ));
                    }
                    return Some(j);
                },
                None => {
                    return None;
                },
            }
        } else {
            return None;
        }
    }
    if (c as u32) < 32 {
        return None;
    }
    acc.push(c);
    let ghost mid = acc@;
    let r = p_str_body(v, i + 1, acc);
    proof {
        assert(v@.skip(i as int).skip(1) =~= v@.skip(i + 1));
        assert(v@.skip(i as int).drop_first() =~= v@.skip(i + 1));
    }
    match r {
        Some(j) => {
            proof {
                assert(mid == old(acc)@.push(c));
                assert(acc@.take(mid.len() as int) == mid);
                assert(acc@.take(mid.len() as int)[old(acc)@.len() as int] == c);
                assert(acc@[old(acc)@.len() as int] == c);
                assert(acc@.take(old(acc)@.len() as int) =~= old(acc)@);
                assert(acc@.skip(old(acc)@.len() as int) =~= seq![c] + acc@.skip(mid.len() as int));
            }
            Some(j)
        },
        None => None,
    }
}

/// Whether `c` is a lowercase hex digit.
fn is_hex_char_exec(c: char) -> (r: bool)
    ensures
        r == is_hex_char(c),
{
    let u = c as u32;
    (48 <= u && u <= 57) || (97 <= u && u <= 102)
}

/// Consumes a whole JSON string token at position `i`, opening quote
/// included, yielding the unescaped string.
fn p_jstr(v: &Vec<char>, i: usize) -> (r: Option<(String, usize)>)
    requires
        i <= v@.len(),
    ensures
        match r {
            Some(p) => i <= p.1 <= v@.len() && scan_jstr(v@.skip(i as int)) == Some(
                (p.0@, v@.skip(p.1 as int)),
            ),
            None => scan_jstr(v@.skip(i as int)) is None,
        },
{
    let n = v.len();
    if i >= n || v[i] != '"' {
        proof {
            if i < n {
                assert(v@.skip(i as int)[0] == v@[i as int]);
            }
        }
        return None;
    }
    proof {
        assert(v@.skip(i as int)[0] == '"');
        assert(v@.skip(i as int).drop_first() =~= v@.skip(i + 1));
    }
    let mut acc: Vec<char> = Vec::new();
    match p_str_body(v, i + 1, &mut acc) {
        Some(j) => {
            let s = chars_to_string(&acc);
            proof {
                assert(acc@.skip(0) =~= acc@);
            }
            Some((s, j))
        },
        None => None,
    }
}


/// Consumes one record in its persisted form.
pub open spec fn scan_record(v: Seq<char>) -> Option<(RecordView, Seq<char>)> {
    match scan_lit(v, "    {\n      \"id\": "@) {
        None => None,
        Some(v1) => match scan_jstr(v1) {
            None => None,
            Some((id, v2)) => match scan_lit(v2, ",\n      \"path\": "@) {
                None => None,
                Some(v3) => match scan_jstr(v3) {
                    None => None,
                    Some((path, v4)) => match scan_lit(v4, ",\n      \"hash\": "@) {
                        None => None,
                        Some(v5) => match scan_jstr(v5) {
                            None => None,
                            Some((hash, v6)) => match scan_lit(v6, ",\n      \"size\": "@) {
                                None => None,
                                Some(v7) => match scan_u64(v7) {
                                    None => None,
                                    Some((size, v8)) => match scan_lit(
                                        v8,
                                        ",\n      \"time_stamp\": \""@,
                                    ) {
                                        None => None,
                                        Some(v9) => match scan_ts(v9) {
                                            None => None,
                                            Some((ts, v10)) => match scan_lit(v10, "\"\n    }"@) {
                                                None => None,
                                                Some(v11) => Some(
                                                    (
                                                        RecordView {
                                                            id: id,
                                                            path: path,
                                                            hash: hash,
                                                            size: size,
                                                            time_stamp: ts,
                                                        },
                                                        v11,
                                                    ),
                                                ),
                                            },
                                        },
                                    },
                                },
                            },
                        },
                    },
                },
            },
        },
    }
}

/// Consumes the records of a non-empty list, joined by `,\n` and closed by
/// the list's final `\n  ]`.
pub open spec fn scan_items(v: Seq<char>) -> Option<(Seq<RecordView>, Seq<char>)>
    decreases v.len(),
{
    match scan_record(v) {
        None => None,
        Some((rec, v1)) => if v1.len() >= 1 && v1[0] == ',' {
            match scan_lit(v1, ",\n"@) {
                None => None,
                Some(v2) => if v2.len() < v.len() {
                    match scan_items(v2) {
                        None => None,
                        Some((rs, v3)) => Some((seq![rec] + rs, v3)),
                    }
                } else {
                    None
                },
            }
        } else {
            match scan_lit(v1, "\n  ]"@) {
                None => None,
                Some(v2) => Some((seq![rec], v2)),
            }
        },
    }
}

/// Consumes the record list in its persisted form.
pub open spec fn scan_files(v: Seq<char>) -> Option<(Seq<RecordView>, Seq<char>)> {
    if v.len() >= 2 && v[0] == '[' && v[1] == ']' {
        Some((Seq::empty(), v.skip(2)))
    } else {
        match scan_lit(v, "[\n"@) {
            None => None,
            Some(v1) => scan_items(v1),
        }
    }
}

/// The content of a store file: `Some` exactly on the canonical text of a
/// store, with nothing after the closing brace.
pub open spec fn spec_parse_store(v: Seq<char>) -> Option<StoreView> {
    match scan_lit(v, "{\n  \"version\": "@) {
        None => None,
        Some(v1) => match scan_jstr(v1) {
            None => None,
            Some((version, v2)) => match scan_lit(v2, ",\n  \"root_dir\": "@) {
                None => None,
                Some(v3) => match scan_jstr(v3) {
                    None => None,
                    Some((root, v4)) => match scan_lit(v4, ",\n  \"created_at\": \""@) {
                        None => None,
                        Some(v5) => match scan_ts(v5) {
                            None => None,
                            Some((created, v6)) => match scan_lit(v6, "\",\n  \"updated_at\": \""@) {
                                None => None,
                                Some(v7) => match scan_ts(v7) {
                                    None => None,
                                    Some((updated, v8)) => match scan_lit(
                                        v8,
                                        "\",\n  \"files\": "@,
                                    ) {
                                        None => None,
                                        Some(v9) => match scan_files(v9) {
                                            None => None,
                                            Some((files, v10)) => match scan_lit(v10, "\n}"@) {
                                                None => None,
                                                Some(v11) => if v11.len() == 0 {
                                                    Some(
                                                        StoreView {
                                                            version: version,
                                                            root_dir: root,
                                                            created_at: created,
                                                            updated_at: updated,
                                                            files: files,
                                                        },
                                                    )
                                                } else {
                                                    None
                                                },
                                            },
                                        },
                                    },
                                },
                            },
                        },
                    },
                },
            },
        },
    }
}

/// `scan_digits` splits exactly at the first non-digit.
pub proof fn lemma_scan_digits_split(v: Seq<char>, m: int)
    requires
        0 <= m <= v.len(),
        forall|k: int| 0 <= k < m ==> is_dec_char(#[trigger] v[k]),
        m == v.len() || !is_dec_char(v[m]),
    ensures
        scan_digits(v) == (v.take(m), v.skip(m)),
    decreases m,
{
    if m == 0 {
        assert(v.take(0) =~= Seq::<char>::empty());
        assert(v.skip(0) =~= v);
    } else {
        let w = v.drop_first();
        assert(forall|k: int| 0 <= k < m - 1 ==> is_dec_char(#[trigger] w[k]));
        lemma_scan_digits_split(w, m - 1);
        assert(seq![v[0]] + w.take(m - 1) =~= v.take(m));
        assert(w.skip(m - 1) =~= v.skip(m));
    }
}

/// The value of a digit string is nonnegative.
pub proof fn lemma_digits_val_nonneg(ds: Seq<char>)
    requires
        forall|k: int| 0 <= k < ds.len() ==> is_dec_char(#[trigger] ds[k]),
    ensures
        digits_val(ds) >= 0,
    decreases ds.len(),
{
    if ds.len() > 0 {
        lemma_digits_val_nonneg(ds.drop_last());
    }
}

/// The value of a digit string is at least the value of any of its
/// prefixes.
pub proof fn lemma_digits_val_extend(ds: Seq<char>, m: int)
    requires
        0 <= m <= ds.len(),
        forall|k: int| 0 <= k < ds.len() ==> is_dec_char(#[trigger] ds[k]),
    ensures
        digits_val(ds) >= digits_val(ds.take(m)),
    decreases ds.len() - m,
{
    if m == ds.len() {
        assert(ds.take(m) =~= ds);
    } else {
        lemma_digits_val_extend(ds, m + 1);
        let p = ds.take(m + 1);
        assert(p.drop_last() =~= ds.take(m));
        assert(forall|k: int| 0 <= k < p.len() ==> is_dec_char(#[trigger] p[k]));
        lemma_digits_val_nonneg(ds.take(m));
        assert(digits_val(p) == digits_val(ds.take(m)) * 10 + dval(p.last()));
        assert(dval(p.last()) >= 0);
        assert(digits_val(ds.take(m)) * 10 >= digits_val(ds.take(m)));
    }
}

/// Consumes the canonical decimal notation of a `u64` at position `i`.
fn p_u64(v: &Vec<char>, i: usize) -> (r: Option<(u64, usize)>)
    requires
        i <= v@.len(),
    ensures
        match r {
            Some(p) => i <= p.1 <= v@.len() && scan_u64(v@.skip(i as int)) == Some(
                (p.0, v@.skip(p.1 as int)),
            ),
            None => scan_u64(v@.skip(i as int)) is None,
        },
{
    let n = v.len();
    let mut k: usize = i;
    while k < n && is_dec_char_exec(v[k])
        invariant
            i <= k <= n,
            n == v@.len(),
            forall|m: int| i <= m < k ==> is_dec_char(#[trigger] v@[m]),
        decreases n - k,
    {
        k = k + 1;
    }
    let ghost suf = v@.skip(i as int);
    let ghost ds = suf.take(k - i);
    proof {
        assert(forall|m: int| 0 <= m < k - i ==> suf[m] == v@[i + m]);
        assert(forall|m: int| 0 <= m < k - i ==> is_dec_char(#[trigger] suf[m]));
        if k < n {
            assert(suf[k - i] == v@[k as int]);
        }
        lemma_scan_digits_split(suf, k - i);
        assert(suf.skip(k - i) =~= v@.skip(k as int));
        assert(forall|m: int| 0 <= m < ds.len() ==> is_dec_char(#[trigger] ds[m]));
    }
    if k == i {
        proof {
            assert(scan_digits(suf).0 == ds);
            assert(ds.len() == 0);
            assert(scan_u64(suf) is None);
        }
        return None;
    }
    if v[i] == '0' && k - i > 1 {
        proof {
            assert(scan_digits(suf).0 == ds);
            assert(suf[0] == v@[i as int]);
            assert(ds[0] == suf[0]);
            assert(ds[0] == '0' && ds.len() > 1);
            assert(scan_u64(suf) is None);
        }
        return None;
    }
    let mut val: u64 = 0;
    let mut t = i;
    proof {
        assert(ds.take(0) =~= Seq::<char>::empty());
    }
    while t < k
        invariant
            i < k,
            i <= t <= k <= n,
            n == v@.len(),
            k - i == ds.len(),
            ds == v@.skip(i as int).take(k - i),
            scan_digits(v@.skip(i as int)) == (ds, v@.skip(k as int)),
            !(ds.len() > 1 && ds[0] == '0'),
            forall|m: int| i <= m < k ==> is_dec_char(#[trigger] v@[m]),
            forall|m: int| 0 <= m < ds.len() ==> ds[m] == v@[i + m],
            forall|m: int| 0 <= m < ds.len() ==> is_dec_char(#[trigger] ds[m]),
            val == digits_val(ds.take(t - i)),
        decreases k - t,
    {
        let u = v[t] as u32;
        proof {
            assert(is_dec_char(v@[t as int]));
            assert(48 <= u <= 57);
        }
        let d = (u - 48) as u64;
        let ghost prefix = ds.take(t - i);
        let ghost prefix1 = ds.take(t - i + 1);
        proof {
            assert(prefix1.drop_last() =~= prefix);
            assert(prefix1.last() == ds[t - i]);
            assert(ds[t - i] == v@[t as int]);
            assert(dval(v@[t as int]) == d as int);
            assert(digits_val(prefix1) == digits_val(prefix) * 10 + d);
            lemma_digits_val_nonneg(prefix);
        }
        let limit = (u64::MAX - d) / 10;
        if val > limit {
            proof {
                vstd::arithmetic::div_mod::lemma_fundamental_div_mod(
                    u64::MAX as int - d as int,
                    10,
                );
                vstd::arithmetic::mul::lemma_mul_inequality(
                    limit as int + 1,
                    val as int,
                    10,
                );
                assert(val as int * 10 + d as int > u64::MAX);
                assert(digits_val(prefix1) > u64::MAX);
                lemma_digits_val_extend(ds, t - i + 1);
                assert(digits_val(ds) > u64::MAX);
            }
            return None;
        }
        proof {
            vstd::arithmetic::div_mod::lemma_fundamental_div_mod(u64::MAX as int - d as int, 10);
            vstd::arithmetic::mul::lemma_mul_inequality(val as int, limit as int, 10);
            assert(val as int * 10 + d as int <= u64::MAX);
        }
        val = val * 10 + d;
        t = t + 1;
    }
    proof {
        assert(ds.take(k - i) =~= ds);
    }
    Some((val, k))
}

/// Consumes a two-digit zero-padded decimal at position `i`.
fn p_pad2(v: &Vec<char>, i: usize) -> (r: Option<(u8, usize)>)
    requires
        i <= v@.len(),
    ensures
        match r {
            Some(p) => p.1 == i + 2 && p.1 <= v@.len() && p.0 < 100 && scan_pad2(
                v@.skip(i as int),
            ) == Some((p.0 as int, v@.skip(p.1 as int))),
            None => scan_pad2(v@.skip(i as int)) is None,
        },
{
    let n = v.len();
    if n - i < 2 {
        return None;
    }
    let c0 = v[i];
    let c1 = v[i + 1];
    proof {
        let suf = v@.skip(i as int);
        assert(suf[0] == c0 && suf[1] == c1);
    }
    if !(is_dec_char_exec(c0) && is_dec_char_exec(c1)) {
        return None;
    }
    let x = ((c0 as u32 - 48) * 10 + (c1 as u32 - 48)) as u8;
    proof {
        assert(v@.skip(i as int).skip(2) =~= v@.skip(i + 2));
    }
    Some((x, i + 2))
}

/// Consumes a four-digit zero-padded decimal at position `i`.
fn p_pad4(v: &Vec<char>, i: usize) -> (r: Option<(u16, usize)>)
    requires
        i <= v@.len(),
    ensures
        match r {
            Some(p) => p.1 == i + 4 && p.1 <= v@.len() && p.0 < 10000 && scan_pad4(
                v@.skip(i as int),
            ) == Some((p.0 as int, v@.skip(p.1 as int))),
            None => scan_pad4(v@.skip(i as int)) is None,
        },
{
    let (hi, j1) = match p_pad2(v, i) {
        Some(p) => p,
        None => {
            return None;
        },
    };
    let (lo, j2) = match p_pad2(v, j1) {
        Some(p) => p,
        None => {
            return None;
        },
    };
    Some((hi as u16 * 100 + lo as u16, j2))
}

/// Consumes a timestamp in its persisted form at position `i`.
#[verifier::rlimit(50)]
fn p_ts(v: &Vec<char>, i: usize) -> (r: Option<(Timestamp, usize)>)
    requires
        i <= v@.len(),
    ensures
        match r {
            Some(p) => i <= p.1 <= v@.len() && ts_valid(p.0) && scan_ts(v@.skip(i as int)) == Some(
                (p.0, v@.skip(p.1 as int)),
            ),
            None => scan_ts(v@.skip(i as int)) is None,
        },
{
    let n = v.len();
    let (y, j1) = match p_pad4(v, i) {
        Some(p) => p,
        None => {
            return None;
        },
    };
    if !(j1 < n && v[j1] == '-') {
        proof {
            if j1 < n {
                assert(v@.skip(j1 as int)[0] == v@[j1 as int]);
            }
        }
        return None;
    }
    proof {
        assert(v@.skip(j1 as int)[0] == '-');
        assert(v@.skip(j1 as int).drop_first() =~= v@.skip(j1 + 1));
    }
    let (mo, j2) = match p_pad2(v, j1 + 1) {
        Some(p) => p,
        None => {
            return None;
        },
    };
    if !(j2 < n && v[j2] == '-') {
        proof {
            if j2 < n {
                assert(v@.skip(j2 as int)[0] == v@[j2 as int]);
            }
        }
        return None;
    }
    proof {
        assert(v@.skip(j2 as int)[0] == '-');
        assert(v@.skip(j2 as int).drop_first() =~= v@.skip(j2 + 1));
    }
    let (d, j3) = match p_pad2(v, j2 + 1) {
        Some(p) => p,
        None => {
            return None;
        },
    };
    if !(j3 < n && v[j3] == 'T') {
        proof {
            if j3 < n {
                assert(v@.skip(j3 as int)[0] == v@[j3 as int]);
            }
        }
        return None;
    }
    proof {
        assert(v@.skip(j3 as int)[0] == 'T');
        assert(v@.skip(j3 as int).drop_first() =~= v@.skip(j3 + 1));
    }
    let (h, j4) = match p_pad2(v, j3 + 1) {
        Some(p) => p,
        None => {
            return None;
        },
    };
    if !(j4 < n && v[j4] == ':') {
        proof {
            if j4 < n {
                assert(v@.skip(j4 as int)[0] == v@[j4 as int]);
            }
        }
        return None;
    }
    proof {
        assert(v@.skip(j4 as int)[0] == ':');
        assert(v@.skip(j4 as int).drop_first() =~= v@.skip(j4 + 1));
    }
    let (mi, j5) = match p_pad2(v, j4 + 1) {
        Some(p) => p,
        None => {
            return None;
        },
    };
    if !(j5 < n && v[j5] == ':') {
        proof {
            if j5 < n {
                assert(v@.skip(j5 as int)[0] == v@[j5 as int]);
            }
        }
        return None;
    }
    proof {
        assert(v@.skip(j5 as int)[0] == ':');
        assert(v@.skip(j5 as int).drop_first() =~= v@.skip(j5 + 1));
    }
    let (s, j6) = match p_pad2(v, j5 + 1) {
        Some(p) => p,
        None => {
            return None;
        },
    };
    if !(j6 < n && v[j6] == 'Z') {
        proof {
            if j6 < n {
                assert(v@.skip(j6 as int)[0] == v@[j6 as int]);
            }
        }
        return None;
    }
    proof {
        assert(v@.skip(j6 as int)[0] == 'Z');
        assert(v@.skip(j6 as int).drop_first() =~= v@.skip(j6 + 1));
    }
    let t = Timestamp { year: y, month: mo, day: d, hour: h, minute: mi, second: s };
    if !t.is_valid() {
        return None;
    }
    Some((t, j6 + 1))
}


/// Consumes one record at position `i`.
#[verifier::rlimit(50)]
fn p_record(v: &Vec<char>, i: usize) -> (r: Option<(FileRecord, usize)>)
    requires
        i <= v@.len(),
    ensures
        match r {
            Some(p) => i <= p.1 <= v@.len() && ts_valid(p.0@.time_stamp) && scan_record(
                v@.skip(i as int),
            ) == Some((p.0@, v@.skip(p.1 as int))),
            None => scan_record(v@.skip(i as int)) is None,
        },
{
    let j1 = match p_lit(v, i, "    {\n      \"id\": ") {
        Some(j) => j,
        None => {
            return None;
        },
    };
    let (id, j2) = match p_jstr(v, j1) {
        Some(p) => p,
        None => {
            return None;
        },
    };
    let j3 = match p_lit(v, j2, ",\n      \"path\": ") {
        Some(j) => j,
        None => {
            return None;
        },
    };
    let (path, j4) = match p_jstr(v, j3) {
        Some(p) => p,
        None => {
            return None;
        },
    };
    let j5 = match p_lit(v, j4, ",\n      \"hash\": ") {
        Some(j) => j,
        None => {
            return None;
        },
    };
    let (hash, j6) = match p_jstr(v, j5) {
        Some(p) => p,
        None => {
            return None;
        },
    };
    let j7 = match p_lit(v, j6, ",\n      \"size\": ") {
        Some(j) => j,
        None => {
            return None;
        },
    };
    let (size, j8) = match p_u64(v, j7) {
        Some(p) => p,
        None => {
            return None;
        },
    };
    let j9 = match p_lit(v, j8, ",\n      \"time_stamp\": \"") {
        Some(j) => j,
        None => {
            return None;
        },
    };
    let (ts, j10) = match p_ts(v, j9) {
        Some(p) => p,
        None => {
            return None;
        },
    };
    let j11 = match p_lit(v, j10, "\"\n    }") {
        Some(j) => j,
        None => {
            return None;
        },
    };
    let rec = FileRecord { id, path, hash: HexStirng(hash), size, time_stamp: ts };
    proof {
        assert(scan_record(v@.skip(i as int)) == Some((rec@, v@.skip(j11 as int))));
    }
    Some((rec, j11))
}

/// Consumes the records of a non-empty list at position `i`, pushing them
/// onto `out`.
#[verifier::rlimit(50)]
fn p_items(v: &Vec<char>, i: usize, out: &mut Vec<FileRecord>) -> (r: Option<usize>)
    requires
        i <= v@.len(),
    ensures
        match r {
            Some(j) => {
                &&& i <= j <= v@.len()
                &&& final(out)@.len() >= old(out)@.len()
                &&& final(out)@.take(old(out)@.len() as int) == old(out)@
                &&& forall|m: int|
                    old(out)@.len() <= m < final(out)@.len() ==> ts_valid(
                        #[trigger] final(out)@[m]@.time_stamp,
                    )
                &&& scan_items(v@.skip(i as int)) == Some(
                    (views_of(final(out)@.skip(old(out)@.len() as int)), v@.skip(j as int)),
                )
            },
            None => scan_items(v@.skip(i as int)) is None,
        },
    decreases v@.len() - i,
{
    let n = v.len();
    let (rec, j1) = match p_record(v, i) {
        Some(p) => p,
        None => {
            return None;
        },
    };
    let ghost recv = rec@;
    out.push(rec);
    let ghost mid = out@;
    if j1 < n && v[j1] == ',' {
        proof {
            assert(v@.skip(j1 as int)[0] == ',');
        }
        let j2 = match p_lit(v, j1, ",\n") {
            Some(j) => j,
            None => {
                return None;
            },
        };
        proof {
            reveal_strlit(",\n");
            assert(j2 > i);
            assert(v@.skip(j2 as int).len() < v@.skip(i as int).len());
        }
        match p_items(v, j2, out) {
            Some(j3) => {
                proof {
                    assert(out@.take(mid.len() as int) == mid);
                    assert(mid[old(out)@.len() as int]@ == recv);
                    assert(out@.take(mid.len() as int)[old(out)@.len() as int] == mid[old(
                        out,
                    )@.len() as int]);
                    assert(out@.take(old(out)@.len() as int) =~= old(out)@);
                    assert(out@.skip(old(out)@.len() as int) =~= seq![
                        out@[old(out)@.len() as int],
                    ] + out@.skip(mid.len() as int));
                    assert(out@[old(out)@.len() as int]@ == recv);
                    assert(views_of(out@.skip(old(out)@.len() as int)) =~= seq![recv] + views_of(
                        out@.skip(mid.len() as int),
                    ));
                    assert(scan_items(v@.skip(i as int)) == Some(
                        (views_of(out@.skip(old(out)@.len() as int)), v@.skip(j3 as int)),
                    ));
                }
                Some(j3)
            },
            None => None,
        }
    } else {
        proof {
            if j1 < n {
                assert(v@.skip(j1 as int)[0] == v@[j1 as int]);
            } else {
                assert(v@.skip(j1 as int).len() == 0);
            }
        }
        let j2 = match p_lit(v, j1, "\n  ]") {
            Some(j) => j,
            None => {
                return None;
            },
        };
        proof {
            assert(out@.take(old(out)@.len() as int) =~= old(out)@);
            assert(out@.skip(old(out)@.len() as int) =~= seq![out@[old(out)@.len() as int]]);
            assert(out@[old(out)@.len() as int]@ == recv);
            assert(views_of(out@.skip(old(out)@.len() as int)) =~= seq![recv]);
            assert(scan_items(v@.skip(i as int)) == Some(
                (views_of(out@.skip(old(out)@.len() as int)), v@.skip(j2 as int)),
            ));
        }
        Some(j2)
    }
}

/// Consumes the record list at position `i`.
fn p_files(v: &Vec<char>, i: usize) -> (r: Option<(Vec<FileRecord>, usize)>)
    requires
        i <= v@.len(),
    ensures
        match r {
            Some(p) => {
                &&& i <= p.1 <= v@.len()
                &&& forall|m: int|
                    0 <= m < p.0@.len() ==> ts_valid(#[trigger] p.0@[m]@.time_stamp)
                &&& scan_files(v@.skip(i as int)) == Some((views_of(p.0@), v@.skip(p.1 as int)))
            },
            None => scan_files(v@.skip(i as int)) is None,
        },
{
    let n = v.len();
    if n - i >= 2 && v[i] == '[' && v[i + 1] == ']' {
        let files: Vec<FileRecord> = Vec::new();
        proof {
            assert(v@.skip(i as int)[0] == '[');
            assert(v@.skip(i as int)[1] == ']');
            assert(v@.skip(i as int).skip(2) =~= v@.skip(i + 2));
            assert(views_of(files@) =~= Seq::<RecordView>::empty());
        }
        return Some((files, i + 2));
    }
    proof {
        let suf = v@.skip(i as int);
        if i < n {
            assert(suf[0] == v@[i as int]);
        }
        if i + 1 < n {
            assert(suf[1] == v@[i + 1]);
        }
    }
    let j1 = match p_lit(v, i, "[\n") {
        Some(j) => j,
        None => {
            return None;
        },
    };
    proof {
        reveal_strlit("[\n");
        let suf = v@.skip(i as int);
        assert(suf.take(2) == "[\n"@);
        assert(suf.take(2)[1] == suf[1]);
        assert("[\n"@[1] == '\n');
        assert(suf[1] == '\n');
    }
    let mut files: Vec<FileRecord> = Vec::new();
    match p_items(v, j1, &mut files) {
        Some(j2) => {
            proof {
                assert(files@.skip(0) =~= files@);
            }
            Some((files, j2))
        },
        None => None,
    }
}

/// The message carried by a parse failure.
pub open spec fn parse_error_message() -> Seq<char> {
    "Invalid JSON format: the text is not a canonical database document"@
}

/// The message carried by a load failure.
pub open spec fn load_error_message() -> Seq<char> {
    "Failed to load DB file: "@ + parse_error_message()
}

/// Consumes a whole store document.
#[verifier::rlimit(50)]
fn p_store(v: &Vec<char>) -> (r: Option<Database>)
    ensures
        match r {
            Some(db) => spec_parse_store(v@) == Some(db@) && store_serializable(db@),
            None => spec_parse_store(v@) is None,
        },
{
    proof {
        assert(v@.skip(0) =~= v@);
    }
    let j1 = match p_lit(v, 0, "{\n  \"version\": ") {
        Some(j) => j,
        None => {
            return None;
        },
    };
    let (version, j2) = match p_jstr(v, j1) {
        Some(p) => p,
        None => {
            return None;
        },
    };
    let j3 = match p_lit(v, j2, ",\n  \"root_dir\": ") {
        Some(j) => j,
        None => {
            return None;
        },
    };
    let (root_dir, j4) = match p_jstr(v, j3) {
        Some(p) => p,
        None => {
            return None;
        },
    };
    let j5 = match p_lit(v, j4, ",\n  \"created_at\": \"") {
        Some(j) => j,
        None => {
            return None;
        },
    };
    let (created, j6) = match p_ts(v, j5) {
        Some(p) => p,
        None => {
            return None;
        },
    };
    let j7 = match p_lit(v, j6, "\",\n  \"updated_at\": \"") {
        Some(j) => j,
        None => {
            return None;
        },
    };
    let (updated, j8) = match p_ts(v, j7) {
        Some(p) => p,
        None => {
            return None;
        },
    };
    let j9 = match p_lit(v, j8, "\",\n  \"files\": ") {
        Some(j) => j,
        None => {
            return None;
        },
    };
    let (files, j10) = match p_files(v, j9) {
        Some(p) => p,
        None => {
            return None;
        },
    };
    let j11 = match p_lit(v, j10, "\n}") {
        Some(j) => j,
        None => {
            return None;
        },
    };
    if j11 != v.len() {
        proof {
            assert(v@.skip(j11 as int).len() != 0);
        }
        return None;
    }
    let db = Database { version, root_dir, created_at: created, updated_at: updated, files };
    proof {
        assert(v@.skip(j11 as int).len() == 0);
        assert(db@.files =~= views_of(db.files@));
        assert(spec_parse_store(v@) == Some(db@));
        assert forall|m: int| 0 <= m < db@.files.len() implies ts_valid(
            #[trigger] db@.files[m].time_stamp,
        ) by {
            assert(db@.files[m] == db.files@[m]@);
        }
    }
    Some(db)
}

/// Reads and parses a store document from the text content of its
/// persisted file.
///
/// Succeeds exactly on the canonical text of a store; anything else is a
/// parse error. Reading the file's bytes and checking that they are valid
/// UTF-8 are caller concerns.
pub fn parse_database_file(text: &str) -> (r: Result<Database, DatabaseError>)
    ensures
        match r {
            Ok(db) => spec_parse_store(text@) == Some(db@) && store_serializable(db@),
            Err(e) => spec_parse_store(text@) is None && e.message@ == parse_error_message(),
        },
{
    let len = text.unicode_len();
    let mut chars: Vec<char> = Vec::new();
    let mut i: usize = 0;
    while i < len
        invariant
            i <= len,
            len == text@.len(),
            chars@ == text@.take(i as int),
        decreases len - i,
    {
        let c = text.get_char(i);
        chars.push(c);
        proof {
            assert(text@.take(i + 1) =~= text@.take(i as int).push(text@[i as int]));
        }
        i = i + 1;
    }
    proof {
        assert(chars@ =~= text@);
    }
    match p_store(&chars) {
        Some(db) => Ok(db),
        None => Err(
            DatabaseError {
                message: String::from_str(
                    "Invalid JSON format: the text is not a canonical database document",
                ),
            },
        ),
    }
}

impl Database {
    /// Loads the database from the text content of its persisted file,
    /// wrapping a parse failure with load-level context.
    pub fn load(text: &str) -> (r: Result<Database, InitError>)
        ensures
            match r {
                Ok(db) => spec_parse_store(text@) == Some(db@) && store_serializable(db@),
                Err(e) => spec_parse_store(text@) is None && e.message@ == load_error_message(),
            },
    {
        match parse_database_file(text) {
            Ok(db) => Ok(db),
            Err(e) => {
                let mut message = String::from_str("Failed to load DB file: ");
                message.append(e.message.as_str());
                Err(InitError { message })
            },
        }
    }

    /// Returns a database parsed from the persisted file's content, or a
    /// freshly initialized one when no such file exists (`existing` is
    /// `None`). The fresh database is not yet persisted.
    pub fn get_or_create_db(existing: Option<&str>, root_dir: String, now: Timestamp) -> (r:
        Result<Database, InitError>)
        requires
            ts_valid(now),
        ensures
            match existing {
                None => {
                    &&& r is Ok
                    &&& r->Ok_0@.version == VERSION@
                    &&& r->Ok_0@.root_dir == root_dir@
                    &&& r->Ok_0@.created_at == now
                    &&& r->Ok_0@.updated_at == now
                    &&& r->Ok_0@.files == Seq::<RecordView>::empty()
                    &&& store_serializable(r->Ok_0@)
                },
                Some(text) => match r {
                    Ok(db) => spec_parse_store(text@) == Some(db@) && store_serializable(db@),
                    Err(e) => spec_parse_store(text@) is None && e.message@
                        == load_error_message(),
                },
            },
    {
        match existing {
            None => Ok(Database::new(root_dir, now)),
            Some(text) => Database::load(text),
        }
    }
}

} // verus!
