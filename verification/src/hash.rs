//! The hashing engine: a fixed-length, hex-encoded content digest.
//!
//! The digest is a pure function of the content bytes: not of the path, not
//! of any metadata, not of when it is computed.

use crate::models::HexStirng;
use vstd::prelude::*;

verus! {

/// The SHA-256 digest of a byte sequence, named but not written out: the
/// algorithm itself is supplied by the `sha2` crate and trusted.
pub uninterp spec fn sha256_of(bytes: Seq<u8>) -> Seq<u8>;

/// The lowercase hex character for a value below 16.
pub open spec fn hex_char(n: int) -> char {
    if n == 0 {
        '0'
    } else if n == 1 {
        '1'
    } else if n == 2 {
        '2'
    } else if n == 3 {
        '3'
    } else if n == 4 {
        '4'
    } else if n == 5 {
        '5'
    } else if n == 6 {
        '6'
    } else if n == 7 {
        '7'
    } else if n == 8 {
        '8'
    } else if n == 9 {
        '9'
    } else if n == 10 {
        'a'
    } else if n == 11 {
        'b'
    } else if n == 12 {
        'c'
    } else if n == 13 {
        'd'
    } else if n == 14 {
        'e'
    } else {
        'f'
    }
}

/// Whether `c` is a lowercase hex digit.
pub open spec fn is_hex_char(c: char) -> bool {
    ('0' <= c && c <= '9') || ('a' <= c && c <= 'f')
}

/// Lowercase hex encoding of a byte sequence: two digits per byte, high
/// nibble first.
pub open spec fn hex_of(bytes: Seq<u8>) -> Seq<char>
    decreases bytes.len(),
{
    if bytes.len() == 0 {
        Seq::empty()
    } else {
        seq![hex_char(bytes[0] as int / 16), hex_char(bytes[0] as int % 16)] + hex_of(
            bytes.drop_first(),
        )
    }
}

/// The content digest in its user-visible form: the hex encoding of the
/// SHA-256 digest of the bytes.
pub open spec fn spec_digest(bytes: Seq<u8>) -> Seq<char> {
    hex_of(sha256_of(bytes))
}

/// Relies on sha2's `Sha256`: the digest is a function of the input bytes
/// alone and is 32 bytes long.
#[verifier::external_body]
fn sha256_digest(bytes: &[u8]) -> (r: Vec<u8>)
    ensures
        r@ == sha256_of(bytes@),
        r@.len() == 32,
{
    let mut hasher = <sha2::Sha256 as sha2::Digest>::new();
    sha2::Digest::update(&mut hasher, bytes);
    sha2::Digest::finalize(hasher).to_vec()
}

/// Relies on `hex::encode`: lowercase hex, two digits per byte, high nibble
/// first.
#[verifier::external_body]
pub(crate) fn hex_encode(bytes: &[u8]) -> (r: String)
    ensures
        r@ == hex_of(bytes@),
{
    hex::encode(bytes)
}

/// The hex encoding is twice as long as its input.
pub proof fn lemma_hex_of_len(bytes: Seq<u8>)
    ensures
        hex_of(bytes).len() == 2 * bytes.len(),
    decreases bytes.len(),
{
    if bytes.len() > 0 {
        lemma_hex_of_len(bytes.drop_first());
    }
}

/// Every character of a hex encoding is a lowercase hex digit.
pub proof fn lemma_hex_of_chars(bytes: Seq<u8>)
    ensures
        forall|i: int| 0 <= i < hex_of(bytes).len() ==> is_hex_char(#[trigger] hex_of(bytes)[i]),
    decreases bytes.len(),
{
    if bytes.len() > 0 {
        lemma_hex_of_chars(bytes.drop_first());
        let rest = hex_of(bytes.drop_first());
        assert forall|i: int| 0 <= i < hex_of(bytes).len() implies is_hex_char(
            #[trigger] hex_of(bytes)[i],
        ) by {
            if i >= 2 {
                assert(hex_of(bytes)[i] == rest[i - 2]);
            }
        }
    }
}

/// Computes the content digest of a byte sequence: the lowercase hex
/// encoding of its SHA-256 digest, 64 characters long.
pub fn hash_bytes(bytes: &[u8]) -> (r: HexStirng)
    ensures
        r@ == spec_digest(bytes@),
        r@.len() == 64,
{
    let digest = sha256_digest(bytes);
    proof {
        lemma_hex_of_len(digest@);
    }
    HexStirng(hex_encode(digest.as_slice()))
}

/// Law: the digest is deterministic. Two digests of the same byte sequence
/// are the same hex string, whenever and however often they are computed.
pub proof fn lemma_digest_deterministic(b: Seq<u8>, r1: Seq<char>, r2: Seq<char>)
    requires
        r1 == spec_digest(b),
        r2 == spec_digest(b),
    ensures
        r1 == r2,
{
}

} // verus!
