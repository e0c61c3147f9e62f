//! The verification engine: recompute a digest and classify it against the
//! store.
//!
//! Each verification ends in one of three reported outcomes: the file is
//! unchanged, its content has changed, or the store holds no record for it.
//! The engine never mutates the store.

use crate::errors::VerificationError;
use crate::hash::hash_bytes;
use crate::hash::spec_digest;
use crate::models::Database;
use crate::models::HexStirng;
use crate::models::RecordView;
use crate::time::Timestamp;
use vstd::prelude::*;

verus! {

/// The reported outcome of verifying one file against the store.
#[derive(Debug)]
pub enum VerifyOutcome {
    /// The live content hashes to the stored hash
    Unchanged,
    /// The live content hashes differently from the stored hash
    Mismatch {
        /// The hash recorded in the store
        old_hash: HexStirng,
        /// The hash of the live content
        new_hash: HexStirng,
        /// When the stored record was captured
        recorded_time: Timestamp,
    },
    /// No record in the store has the given path
    Untracked,
}

/// The first record whose path equals `path`, in insertion order.
pub open spec fn find_record(files: Seq<RecordView>, path: Seq<char>) -> Option<RecordView>
    decreases files.len(),
{
    if files.len() == 0 {
        None
    } else if files[0].path == path {
        Some(files[0])
    } else {
        find_record(files.drop_first(), path)
    }
}

/// What verifying one live content against one stored record reports:
/// unchanged exactly when the content hashes to the stored hash, else a
/// mismatch carrying the stored hash, the live hash and the record's
/// capture time.
pub open spec fn record_outcome_ok(rec: RecordView, content: Seq<u8>, r: VerifyOutcome) -> bool {
    if rec.hash == spec_digest(content) {
        r is Unchanged
    } else {
        &&& r is Mismatch
        &&& (r matches VerifyOutcome::Mismatch { old_hash, new_hash, recorded_time } ==> {
            &&& old_hash@ == rec.hash
            &&& new_hash@ == spec_digest(content)
            &&& recorded_time == rec.time_stamp
        })
    }
}

/// Verifies a single path: hashes the live content and classifies it
/// against the first record for `path`, in insertion order. Yields
/// `Untracked` when no record has that path; the store is never changed.
pub fn verify_bytes(db: &Database, path: &String, content: &[u8]) -> (r: VerifyOutcome)
    ensures
        match find_record(db@.files, path@) {
            None => r is Untracked,
            Some(rec) => record_outcome_ok(rec, content@, r),
        },
{
    let current = hash_bytes(content);
    let n = db.files.len();
    let mut i: usize = 0;
    proof {
        assert(db@.files.skip(0) =~= db@.files);
    }
    while i < n
        invariant
            i <= n,
            n == db@.files.len(),
            current@ == spec_digest(content@),
            find_record(db@.files, path@) == find_record(db@.files.skip(i as int), path@),
        decreases n - i,
    {
        proof {
            assert(db@.files.skip(i as int)[0] == db@.files[i as int]);
            assert(db@.files[i as int] == db.files@[i as int]@);
            assert(db@.files.skip(i as int).drop_first() =~= db@.files.skip(i + 1));
        }
        if db.files[i].path.eq(path) {
            proof {
                assert(db@.files.skip(i as int)[0].path == path@);
                assert(find_record(db@.files.skip(i as int), path@) == Some(
                    db@.files[i as int],
                ));
            }
            if current.eq(&db.files[i].hash) {
                return VerifyOutcome::Unchanged;
            } else {
                return VerifyOutcome::Mismatch {
                    old_hash: db.files[i].hash.clone(),
                    new_hash: current,
                    recorded_time: db.files[i].time_stamp,
                };
            }
        }
        i = i + 1;
    }
    proof {
        assert(db@.files.skip(n as int).len() == 0);
    }
    VerifyOutcome::Untracked
}

/// Verifies every record in insertion order, one reported entry per
/// record. `contents[k]` is the live content read for record `k`, or
/// `None` where reading it failed; a failed read yields that record's
/// entry as an I/O failure instead of aborting the rest.
pub fn bulk_verify(db: &Database, contents: &Vec<Option<Vec<u8>>>) -> (r: Vec<
    Result<VerifyOutcome, VerificationError>,
>)
    requires
        contents@.len() == db@.files.len(),
    ensures
        r@.len() == db@.files.len(),
        forall|k: int|
            0 <= k < r@.len() ==> match contents@[k] {
                None => #[trigger] r@[k] is Err && r@[k]->Err_0 is IoFailure,
                Some(bytes) => r@[k] is Ok && record_outcome_ok(
                    db@.files[k],
                    bytes@,
                    r@[k]->Ok_0,
                ),
            },
{
    let n = db.files.len();
    let mut out: Vec<Result<VerifyOutcome, VerificationError>> = Vec::new();
    let mut i: usize = 0;
    while i < n
        invariant
            i <= n,
            n == db@.files.len(),
            n == contents@.len(),
            out@.len() == i,
            forall|k: int|
                0 <= k < i ==> match contents@[k] {
                    None => #[trigger] out@[k] is Err && out@[k]->Err_0 is IoFailure,
                    Some(bytes) => out@[k] is Ok && record_outcome_ok(
                        db@.files[k],
                        bytes@,
                        out@[k]->Ok_0,
                    ),
                },
        decreases n - i,
    {
        proof {
            assert(db@.files[i as int] == db.files@[i as int]@);
        }
        match &contents[i] {
            None => {
                out.push(Err(VerificationError::IoFailure));
            },
            Some(bytes) => {
                let current = hash_bytes(bytes.as_slice());
                if current.eq(&db.files[i].hash) {
                    out.push(Ok(VerifyOutcome::Unchanged));
                } else {
                    out.push(
                        Ok(
                            VerifyOutcome::Mismatch {
                                old_hash: db.files[i].hash.clone(),
                                new_hash: current,
                                recorded_time: db.files[i].time_stamp,
                            },
                        ),
                    );
                }
            },
        }
        i = i + 1;
    }
    out
}

} // verus!
