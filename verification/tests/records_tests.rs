use candidature::chat_history::MessageRole;
use candidature::records::{
    embedding_fields, parse_chunk_kind, parse_role, parse_status, role_as_str, sql_failure, ChunkKind,
    InstanceStatus, RepoError,
};

#[test]
fn parse_status_accepts_known_values() {
    assert!(matches!(parse_status("draft"), Ok(InstanceStatus::Draft)));
    assert!(parse_status("nope").is_err());
}

#[test]
fn parse_role_accepts_known_values() {
    assert!(matches!(parse_role("user"), Ok(MessageRole::User)));
    assert!(parse_role("nope").is_err());
}

#[test]
fn unknown_status_and_role_are_named_in_the_error() {
    assert_eq!(
        parse_status("nope"),
        Err(RepoError::Other("statut inconnu : nope".to_string()))
    );
    assert_eq!(
        parse_role("robot"),
        Err(RepoError::Other("rôle inconnu : robot".to_string()))
    );
}

#[test]
fn stored_names_read_back() {
    for st in [
        InstanceStatus::Draft,
        InstanceStatus::Generating,
        InstanceStatus::Ready,
        InstanceStatus::Sent,
        InstanceStatus::Archived,
        InstanceStatus::Failed,
    ] {
        assert_eq!(parse_status(st.as_str()), Ok(st));
    }
    for r in [MessageRole::User, MessageRole::Assistant, MessageRole::System] {
        assert_eq!(parse_role(role_as_str(r)), Ok(r));
    }
    for k in [
        ChunkKind::Experience,
        ChunkKind::Projet,
        ChunkKind::Formation,
        ChunkKind::Competence,
        ChunkKind::PhraseLettre,
    ] {
        assert_eq!(parse_chunk_kind(k.as_str()), k);
    }
}

#[test]
fn unknown_chunk_kind_reads_as_experience() {
    assert_eq!(parse_chunk_kind("autre"), ChunkKind::Experience);
    assert_eq!(parse_chunk_kind("phrase_lettre"), ChunkKind::PhraseLettre);
}

#[test]
fn embedding_fields_split_a_vector_literal() {
    assert_eq!(embedding_fields("[1,2,3]"), vec!["1", "2", "3"]);
    assert_eq!(embedding_fields("[[0.5,,2]]"), vec!["0.5", "", "2"]);
    assert_eq!(embedding_fields("[]"), vec![""]);
}

#[test]
fn sql_failure_keeps_the_unique_violation_message() {
    assert_eq!(
        sql_failure(Some("duplicate key".to_string()), "db error".to_string()),
        RepoError::UniqueViolation("duplicate key".to_string())
    );
    assert_eq!(
        sql_failure(None, "db error".to_string()),
        RepoError::Sql("db error".to_string())
    );
}
