//! Versions of an application's documents: what a snapshot keeps, how
//! versions are numbered, and what restoring one does.

use vstd::prelude::*;
use crate::generate::GeneratedDocuments;
use crate::text::{chars_of, decimal, decimal_chars_u64, push_all, string_of};

verus! {

/// A saved version of an application's documents.
pub struct Snapshot<R, S, C> {
    /// Rank of the version, from one.
    pub version: i32,
    /// The documents as they were.
    pub documents: GeneratedDocuments<R, S, C>,
    /// What the change that followed was about, when known.
    pub trigger_message: Option<String>,
}

/// The number as it is written in decimal, with a minus sign when
/// negative.
pub open spec fn signed_decimal(i: int) -> Seq<char> {
    if i < 0 {
        seq!['-'] + decimal((-i) as nat)
    } else {
        decimal(i as nat)
    }
}

/// The rank of the next version: one more than the number already saved
/// (none when that number could not be read).
pub open spec fn next_version_model(saved: Option<i32>) -> int {
    match saved {
        Some(n) => n + 1,
        None => 1,
    }
}

/// The rank the next saved version gets (see `next_version_model`).
pub fn next_snapshot_version(saved: Option<i32>) -> (r: i32)
    requires
        next_version_model(saved) <= i32::MAX,
    ensures
        r == next_version_model(saved),
{
    match saved {
        Some(n) => n + 1,
        None => 1,
    }
}

/// The snapshot of `documents` saved as version `version`.
pub open spec fn captured<R, S, C>(
    documents: GeneratedDocuments<R, S, C>,
    version: i32,
    trigger_message: Option<String>,
) -> Snapshot<R, S, C> {
    Snapshot { version, documents, trigger_message }
}

/// The documents an application has once `snapshot` is restored.
pub open spec fn restored<R, S, C>(snapshot: Snapshot<R, S, C>) -> GeneratedDocuments<R, S, C> {
    snapshot.documents
}

/// Saves `documents` as version `version` (see `captured`).
pub fn capture<R, S, C>(
    documents: GeneratedDocuments<R, S, C>,
    version: i32,
    trigger_message: Option<String>,
) -> (r: Snapshot<R, S, C>)
    ensures
        r == captured(documents, version, trigger_message),
{
    Snapshot { version, documents, trigger_message }
}

/// Puts back the documents a snapshot holds (see `restored`).
pub fn restore<R, S, C>(documents: &mut GeneratedDocuments<R, S, C>, snapshot: Snapshot<R, S, C>)
    ensures
        *final(documents) == restored(snapshot),
{
    *documents = snapshot.documents;
}

/// Restoring a captured version gives back exactly the documents that were
/// captured, with whatever number and note it was saved under.
pub proof fn lemma_restore_gives_back_capture<R, S, C>(
    documents: GeneratedDocuments<R, S, C>,
    version: i32,
    trigger_message: Option<String>,
)
    ensures
        restored(captured(documents, version, trigger_message)) == documents,
{
}

fn signed_decimal_chars(v: i32) -> (r: Vec<char>)
    ensures
        r@ == signed_decimal(v as int),
{
    if v < 0 {
        let a: i64 = v as i64;
        let m: u64 = (0 - a) as u64;
        let mut out = vec!['-'];
        let d = decimal_chars_u64(m);
        push_all(&mut out, &d);
        out
    } else {
        let m: u64 = v as u64;
        decimal_chars_u64(m)
    }
}

fn around(before: &str, v: i32, after: &str) -> (r: String)
    ensures
        r@ == before@ + signed_decimal(v as int) + after@,
{
    let mut out = chars_of(before);
    let d = signed_decimal_chars(v);
    push_all(&mut out, &d);
    let a = chars_of(after);
    push_all(&mut out, &a);
    string_of(&out)
}

/// The note saved with the backup taken before version `version` is
/// restored.
pub fn restore_backup_note(version: i32) -> (r: String)
    ensures
        r@ == "Backup avant restauration de la version "@ + signed_decimal(version as int),
{
    let r = around("Backup avant restauration de la version ", version, "");
    proof {
        reveal_strlit("");
        assert(r@ =~= "Backup avant restauration de la version "@ + signed_decimal(version as int));
    }
    r
}

/// What the assistant says once version `version` is restored.
pub fn restored_message(version: i32) -> (r: String)
    ensures
        r@ == "J'ai restauré la version "@ + signed_decimal(version as int) + "."@,
{
    around("J'ai restauré la version ", version, ".")
}

/// The error when version `version` does not exist.
pub fn missing_version_error(version: i32) -> (r: String)
    ensures
        r@ == "Version "@ + signed_decimal(version as int) + " introuvable"@,
{
    around("Version ", version, " introuvable")
}

/// What the assistant says once the previous version is restored.
pub fn undo_message() -> (r: String)
    ensures
        r@ == "J'ai restauré la version précédente de vos documents."@,
{
    "J'ai restauré la version précédente de vos documents.".to_owned()
}

} // verus!
