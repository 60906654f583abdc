//! How stored records name their enumerations, and how a storage failure is
//! reported.

use vstd::prelude::*;
use crate::chat_history::MessageRole;
use crate::json::str_eq;
use crate::text::{chars_of, push_all, split_all, split_pieces, string_of, trim_char_end, trim_char_end_chars, trim_char_start, trim_char_start_chars};

verus! {

/// Failure of the storage layer.
#[derive(Clone, Debug, PartialEq, Eq)]
pub enum RepoError {
    /// A uniqueness constraint was violated; the database's message.
    UniqueViolation(String),
    /// Any other database failure, as the driver words it.
    Sql(String),
    /// A stored value could not be read back.
    Other(String),
}

/// Life-cycle of an application.
#[derive(Clone, Copy, Debug, PartialEq, Eq, Structural)]
pub enum InstanceStatus {
    Draft,
    Generating,
    Ready,
    Sent,
    Archived,
    Failed,
}

/// Kind of a profile chunk.
#[derive(Clone, Copy, Debug, PartialEq, Eq, Structural)]
pub enum ChunkKind {
    Experience,
    Projet,
    Formation,
    Competence,
    PhraseLettre,
}

/// The stored name of a status.
pub open spec fn status_name(st: InstanceStatus) -> Seq<char> {
    match st {
        InstanceStatus::Draft => "draft"@,
        InstanceStatus::Generating => "generating"@,
        InstanceStatus::Ready => "ready"@,
        InstanceStatus::Sent => "sent"@,
        InstanceStatus::Archived => "archived"@,
        InstanceStatus::Failed => "failed"@,
    }
}

/// The status a stored name stands for, if any.
pub open spec fn status_named(s: Seq<char>) -> Option<InstanceStatus> {
    if s == "draft"@ {
        Some(InstanceStatus::Draft)
    } else if s == "generating"@ {
        Some(InstanceStatus::Generating)
    } else if s == "ready"@ {
        Some(InstanceStatus::Ready)
    } else if s == "sent"@ {
        Some(InstanceStatus::Sent)
    } else if s == "archived"@ {
        Some(InstanceStatus::Archived)
    } else if s == "failed"@ {
        Some(InstanceStatus::Failed)
    } else {
        None
    }
}

/// The stored name of a message role.
pub open spec fn role_name(r: MessageRole) -> Seq<char> {
    match r {
        MessageRole::User => "user"@,
        MessageRole::Assistant => "assistant"@,
        MessageRole::System => "system"@,
    }
}

/// The role a stored name stands for, if any.
pub open spec fn role_named(s: Seq<char>) -> Option<MessageRole> {
    if s == "user"@ {
        Some(MessageRole::User)
    } else if s == "assistant"@ {
        Some(MessageRole::Assistant)
    } else if s == "system"@ {
        Some(MessageRole::System)
    } else {
        None
    }
}

/// The stored name of a chunk kind.
pub open spec fn kind_name(k: ChunkKind) -> Seq<char> {
    match k {
        ChunkKind::Experience => "experience"@,
        ChunkKind::Projet => "projet"@,
        ChunkKind::Formation => "formation"@,
        ChunkKind::Competence => "competence"@,
        ChunkKind::PhraseLettre => "phrase_lettre"@,
    }
}

/// The kind a stored name stands for; an unknown name reads as an
/// experience.
pub open spec fn kind_named(s: Seq<char>) -> ChunkKind {
    if s == "projet"@ {
        ChunkKind::Projet
    } else if s == "formation"@ {
        ChunkKind::Formation
    } else if s == "competence"@ {
        ChunkKind::Competence
    } else if s == "phrase_lettre"@ {
        ChunkKind::PhraseLettre
    } else {
        ChunkKind::Experience
    }
}

/// The fields of a stored vector literal: the text without its leading `[`
/// and trailing `]` characters, split at every comma.
pub open spec fn embedding_pieces(s: Seq<char>) -> Seq<Seq<char>> {
    split_pieces(trim_char_end(trim_char_start(s, '['), ']'), ',')
}

/// `prefix` followed by `s`.
fn prefixed(prefix: &str, s: &str) -> (r: String)
    ensures
        r@ == prefix@ + s@,
{
    let mut v = chars_of(prefix);
    let w = chars_of(s);
    push_all(&mut v, &w);
    string_of(&v)
}

impl InstanceStatus {
    /// The name under which the status is stored.
    pub fn as_str(&self) -> (r: &'static str)
        ensures
            r@ == status_name(*self),
    {
        match self {
            InstanceStatus::Draft => "draft",
            InstanceStatus::Generating => "generating",
            InstanceStatus::Ready => "ready",
            InstanceStatus::Sent => "sent",
            InstanceStatus::Archived => "archived",
            InstanceStatus::Failed => "failed",
        }
    }
}

impl ChunkKind {
    /// The name under which the kind is stored.
    pub fn as_str(&self) -> (r: &'static str)
        ensures
            r@ == kind_name(*self),
    {
        match self {
            ChunkKind::Experience => "experience",
            ChunkKind::Projet => "projet",
            ChunkKind::Formation => "formation",
            ChunkKind::Competence => "competence",
            ChunkKind::PhraseLettre => "phrase_lettre",
        }
    }
}

/// The name under which a message role is stored.
pub fn role_as_str(r: MessageRole) -> (s: &'static str)
    ensures
        s@ == role_name(r),
{
    match r {
        MessageRole::User => "user",
        MessageRole::Assistant => "assistant",
        MessageRole::System => "system",
    }
}

/// Reads a stored status; an unknown name is refused with
/// `statut inconnu : <name>`.
pub fn parse_status(s: &str) -> (r: Result<InstanceStatus, RepoError>)
    ensures
        match status_named(s@) {
            Some(st) => r == Ok::<InstanceStatus, RepoError>(st),
            None => r matches Err(RepoError::Other(m)) && m@ == "statut inconnu : "@ + s@,
        },
{
    if str_eq(s, "draft") {
        Ok(InstanceStatus::Draft)
    } else if str_eq(s, "generating") {
        Ok(InstanceStatus::Generating)
    } else if str_eq(s, "ready") {
        Ok(InstanceStatus::Ready)
    } else if str_eq(s, "sent") {
        Ok(InstanceStatus::Sent)
    } else if str_eq(s, "archived") {
        Ok(InstanceStatus::Archived)
    } else if str_eq(s, "failed") {
        Ok(InstanceStatus::Failed)
    } else {
        Err(RepoError::Other(prefixed("statut inconnu : ", s)))
    }
}

/// Reads a stored message role; an unknown name is refused with
/// `rôle inconnu : <name>`.
pub fn parse_role(s: &str) -> (r: Result<MessageRole, RepoError>)
    ensures
        match role_named(s@) {
            Some(role) => r == Ok::<MessageRole, RepoError>(role),
            None => r matches Err(RepoError::Other(m)) && m@ == "rôle inconnu : "@ + s@,
        },
{
    if str_eq(s, "user") {
        Ok(MessageRole::User)
    } else if str_eq(s, "assistant") {
        Ok(MessageRole::Assistant)
    } else if str_eq(s, "system") {
        Ok(MessageRole::System)
    } else {
        Err(RepoError::Other(prefixed("rôle inconnu : ", s)))
    }
}

/// Reads a stored chunk kind; an unknown name reads as an experience.
pub fn parse_chunk_kind(s: &str) -> (k: ChunkKind)
    ensures
        k == kind_named(s@),
{
    if str_eq(s, "projet") {
        ChunkKind::Projet
    } else if str_eq(s, "formation") {
        ChunkKind::Formation
    } else if str_eq(s, "competence") {
        ChunkKind::Competence
    } else if str_eq(s, "phrase_lettre") {
        ChunkKind::PhraseLettre
    } else {
        ChunkKind::Experience
    }
}

/// The textual fields of a stored vector literal such as `[1,2,3]`; each
/// field is then read as a number by the caller.
pub fn embedding_fields(s: &str) -> (r: Vec<String>)
    ensures
        r@.map_values(|f: String| f@) == embedding_pieces(s@),
{
    let v = chars_of(s);
    let a = trim_char_start_chars(&v, '[');
    let b = trim_char_end_chars(&a, ']');
    let pieces = split_all(&b, ',');
    let mut out: Vec<String> = Vec::new();
    let mut i: usize = 0;
    while i < pieces.len()
        invariant
            i <= pieces.len(),
            out@.map_values(|f: String| f@) =~= pieces@.subrange(0, i as int).map_values(|w: Vec<char>| w@),
        decreases pieces.len() - i,
    {
        let ghost before = out@;
        let f = string_of(&pieces[i]);
        out.push(f);
        assert(out@.map_values(|f: String| f@) =~= before.map_values(|f: String| f@).push(pieces@[i as int]@));
        assert(pieces@.subrange(0, i + 1).map_values(|w: Vec<char>| w@) =~= pieces@.subrange(0, i as int).map_values(|w: Vec<char>| w@).push(pieces@[i as int]@));
        i = i + 1;
    }
    assert(pieces@.subrange(0, pieces.len() as int) =~= pieces@);
    out
}

/// The storage failure for a database error: a uniqueness violation keeps
/// the database's own message; anything else is reported with the driver's
/// description.
pub fn sql_failure(unique_violation: Option<String>, description: String) -> (r: RepoError)
    ensures
        match unique_violation {
            Some(m) => r == RepoError::UniqueViolation(m),
            None => r == RepoError::Sql(description),
        },
{
    match unique_violation {
        Some(m) => RepoError::UniqueViolation(m),
        None => RepoError::Sql(description),
    }
}

/// What is stored of a status reads back as that status.
pub proof fn lemma_status_round_trip(st: InstanceStatus)
    ensures
        status_named(status_name(st)) == Some(st),
{
    reveal_strlit("draft");
    reveal_strlit("generating");
    reveal_strlit("ready");
    reveal_strlit("sent");
    reveal_strlit("archived");
    reveal_strlit("failed");
    assert("draft"@[0] == 'd' && "draft"@.len() == 5);
    assert("generating"@[0] == 'g' && "generating"@.len() == 10);
    assert("ready"@[0] == 'r' && "ready"@.len() == 5);
    assert("sent"@[0] == 's' && "sent"@.len() == 4);
    assert("archived"@[0] == 'a' && "archived"@.len() == 8);
    assert("failed"@[0] == 'f' && "failed"@.len() == 6);
}

/// What is stored of a message role reads back as that role.
pub proof fn lemma_role_round_trip(r: MessageRole)
    ensures
        role_named(role_name(r)) == Some(r),
{
    reveal_strlit("user");
    reveal_strlit("assistant");
    reveal_strlit("system");
    assert("user"@[0] == 'u' && "user"@.len() == 4);
    assert("assistant"@[0] == 'a' && "assistant"@.len() == 9);
    assert("system"@[0] == 's' && "system"@.len() == 6);
}

/// What is stored of a chunk kind reads back as that kind.
pub proof fn lemma_kind_round_trip(k: ChunkKind)
    ensures
        kind_named(kind_name(k)) == k,
{
    reveal_strlit("experience");
    reveal_strlit("projet");
    reveal_strlit("formation");
    reveal_strlit("competence");
    reveal_strlit("phrase_lettre");
    assert("experience"@[0] == 'e' && "experience"@.len() == 10);
    assert("projet"@[0] == 'p' && "projet"@.len() == 6);
    assert("formation"@[0] == 'f' && "formation"@.len() == 9);
    assert("competence"@[0] == 'c' && "competence"@.len() == 10);
    assert("phrase_lettre"@[0] == 'p' && "phrase_lettre"@.len() == 13);
}

} // verus!
