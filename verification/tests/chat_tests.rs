use candidature::chat::{apply_chat_answer, chat_target, ChatMutationOutput};
use candidature::records::InstanceStatus;
use candidature::chat::{
    apply_list_operation, is_list_field, is_mutation_request, merge_json_without_arrays,
    truncate_for_prompt, ListEditError, ListOperation,
};
use candidature::chat_history::{
    build_thread_title, extract_chat_history, extract_chat_history_for_conversation,
    push_chat_history_for_conversation, render_chat_history_for_prompt, HistoryEntry,
    MessageRole,
};
use candidature::json::{JsonValue, Member};

fn obj(members: Vec<(&str, JsonValue)>) -> JsonValue {
    JsonValue::Object(
        members
            .into_iter()
            .map(|(k, v)| Member { key: k.to_string(), value: v })
            .collect(),
    )
}

fn s(v: &str) -> JsonValue {
    JsonValue::Str(v.to_string())
}

#[test]
fn mutation_request_detects_direct_action() {
    assert!(is_mutation_request("ajoute une expérience Rust"));
    assert!(is_mutation_request("Peux-tu modifier mon accroche ?"));
    assert!(is_mutation_request("mets à jour mon CV"));
}

#[test]
fn mutation_request_avoids_obvious_false_positive() {
    assert!(!is_mutation_request(
        "explique-moi pourquoi tu n'as pas ajouté Rust"
    ));
}

#[test]
fn mutation_request_only_looks_at_the_first_six_words() {
    assert!(!is_mutation_request("un deux trois quatre cinq six modifie"));
    assert!(!is_mutation_request(""));
}

#[test]
fn truncate_for_prompt_cuts_and_marks() {
    assert_eq!(truncate_for_prompt("abcdef".to_string(), 10), "abcdef");
    assert_eq!(truncate_for_prompt("abcdef".to_string(), 3), "abc ...[truncated]");
    assert_eq!(truncate_for_prompt("éé".to_string(), 2), "é ...[truncated]");
}

#[test]
fn list_fields_are_recognised() {
    assert!(is_list_field("experiences"));
    assert!(is_list_field("paragraphes"));
    assert!(!is_list_field("accroche"));
}

#[test]
fn merge_preserves_unmodified_fields_and_deletes_nulls() {
    let mut a = obj(vec![
        ("identite", obj(vec![("prenom", s("Romeo")), ("nom", s("X"))])),
        ("accroche", s("old")),
    ]);
    let b = obj(vec![
        ("accroche", JsonValue::Null),
        ("identite", obj(vec![("nom", s("Y"))])),
    ]);
    assert!(merge_json_without_arrays(&mut a, &b, "$.resume").is_ok());
    let ident = a.get_key("identite").unwrap();
    assert_eq!(ident.get_str("prenom"), Some("Romeo".to_string()));
    assert_eq!(ident.get_str("nom"), Some("Y".to_string()));
    assert!(a.get_key("accroche").is_none());
}

#[test]
fn merge_rejects_list_fields() {
    let mut a = obj(vec![("experiences", JsonValue::Array(vec![]))]);
    let b = obj(vec![("experiences", obj(vec![]))]);
    let err = merge_json_without_arrays(&mut a, &b, "$.resume").unwrap_err();
    assert_eq!(
        err,
        "Mutation de liste non autorisée via update_documents sur $.resume.experiences"
    );
}

#[test]
fn merge_rejects_array_patch_on_missing_key() {
    let mut a = obj(vec![]);
    let b = obj(vec![("tags", JsonValue::Array(vec![s("x")]))]);
    assert!(merge_json_without_arrays(&mut a, &b, "$").is_err());
    assert!(a.get_key("tags").unwrap().is_null());
}

#[test]
fn list_operations_follow_their_rules() {
    let mut v = vec![1, 2, 3];
    assert_eq!(
        apply_list_operation(&mut v, &ListOperation::Add, None, Some(Ok(4)), None),
        Ok(())
    );
    assert_eq!(v, vec![1, 2, 3, 4]);
    let e = apply_list_operation::<i32>(&mut v, &ListOperation::Remove, Some(9), None, None);
    assert_eq!(e, Err(ListEditError::OutOfBounds { index: 9, len: 4 }));
    assert_eq!(
        e.unwrap_err().message(),
        "index 9 hors limites (taille actuelle: 4)"
    );
    assert_eq!(
        apply_list_operation(&mut v, &ListOperation::Update, Some(0), Some(Ok(7)), None),
        Ok(())
    );
    assert_eq!(v, vec![7, 2, 3, 4]);
    let r = apply_list_operation(
        &mut v,
        &ListOperation::Replace,
        None,
        None,
        Some(vec![Ok(5), Err("mauvais".to_string()), Ok(6)]),
    );
    assert_eq!(r, Err(ListEditError::Invalid("mauvais".to_string())));
    assert_eq!(v, vec![7, 2, 3, 4]);
    assert_eq!(
        apply_list_operation::<i32>(&mut v, &ListOperation::Add, None, None, None)
            .unwrap_err()
            .message(),
        "item requis pour add"
    );
}

#[test]
fn thread_title_uses_first_eight_words() {
    assert_eq!(build_thread_title("  "), "Nouveau chat");
    assert_eq!(
        build_thread_title("un deux trois quatre cinq six sept huit neuf"),
        "un deux trois quatre cinq six sept huit"
    );
}

#[test]
fn push_then_extract_reads_back_the_message() {
    let mut notes = obj(vec![]);
    let id = push_chat_history_for_conversation(&mut notes, Some("c1"), "user", "bonjour", None);
    assert_eq!(id, "c1");
    push_chat_history_for_conversation(&mut notes, None, "assistant", "salut", Some("i1"));
    let h = extract_chat_history_for_conversation(&notes, Some("c1"));
    assert_eq!(h.len(), 2);
    assert_eq!(h[1].role, MessageRole::Assistant);
    assert_eq!(h[1].content, "salut");
    assert_eq!(extract_chat_history(&notes).len(), 2);
}

#[test]
fn push_migrates_flat_history() {
    let mut notes = obj(vec![(
        "chat_history",
        JsonValue::Array(vec![obj(vec![("role", s("user")), ("content", s("ancien"))])]),
    )]);
    let id = push_chat_history_for_conversation(&mut notes, None, "user", "nouveau", None);
    assert_eq!(id, "legacy-default");
    let h = extract_chat_history(&notes);
    assert_eq!(h.len(), 2);
    assert_eq!(h[0].content, "ancien");
}

#[test]
fn thread_keeps_at_most_one_hundred_messages() {
    let mut notes = obj(vec![]);
    for i in 0..105 {
        push_chat_history_for_conversation(&mut notes, Some("t"), "user", &format!("m{i}"), None);
    }
    let h = extract_chat_history_for_conversation(&notes, Some("t"));
    assert_eq!(h.len(), 100);
    assert_eq!(h[0].content, "m5");
}

#[test]
fn render_chat_history_for_prompt_keeps_last_twelve_entries_in_order() {
    let history: Vec<HistoryEntry> = (0..13)
        .map(|idx| HistoryEntry { role: MessageRole::User, content: format!("message-{idx}") })
        .collect();

    let rendered = render_chat_history_for_prompt(&history);

    assert!(rendered.starts_with("UTILISATEUR: message-1"));
    assert!(rendered.contains("UTILISATEUR: message-12"));
    assert!(!rendered.contains("message-0"));
    assert!(!rendered.contains("message-13"));
    assert_eq!(rendered.lines().count(), 12);
}

#[test]
fn render_empty_history() {
    assert_eq!(render_chat_history_for_prompt(&[]), "Aucun historique");
}

#[test]
fn chat_goes_to_an_application_only_with_a_non_empty_id() {
    assert_eq!(chat_target(&Some("abc".to_string())), Some("abc".to_string()));
    assert_eq!(chat_target(&Some(String::new())), None);
    assert_eq!(chat_target(&None), None);
}

#[test]
fn chat_answer_replaces_only_documents_it_carries() {
    let mut resume = Some(obj(vec![("v", s("ancien"))]));
    let mut cover = Some(obj(vec![("v", s("lettre"))]));
    let mut status = InstanceStatus::Draft;
    let msg = apply_chat_answer(
        &mut resume,
        &mut cover,
        &mut status,
        ChatMutationOutput {
            message: "  \n".to_string(),
            resume: Some(obj(vec![("v", s("nouveau"))])),
            cover: Some(JsonValue::Null),
        },
    );
    assert_eq!(msg, "J'ai mis à jour les documents selon votre demande.");
    assert_eq!(resume, Some(obj(vec![("v", s("nouveau"))])));
    assert_eq!(cover, Some(obj(vec![("v", s("lettre"))])));
    assert_eq!(status, InstanceStatus::Ready);

    let mut status = InstanceStatus::Sent;
    let msg = apply_chat_answer(
        &mut resume,
        &mut cover,
        &mut status,
        ChatMutationOutput { message: "Votre nom est Ada.".to_string(), resume: None, cover: None },
    );
    assert_eq!(msg, "Votre nom est Ada.");
    assert_eq!(status, InstanceStatus::Sent);
    assert_eq!(resume, Some(obj(vec![("v", s("nouveau"))])));
}

#[test]
fn removing_what_was_just_added_restores_the_list() {
    let mut v: Vec<u32> = vec![1, 2, 3];
    assert_eq!(apply_list_operation(&mut v, &ListOperation::Add, None, Some(Ok(9)), None), Ok(()));
    assert_eq!(v, vec![1, 2, 3, 9]);
    assert_eq!(apply_list_operation(&mut v, &ListOperation::Remove, Some(3), None, None), Ok(()));
    assert_eq!(v, vec![1, 2, 3]);
    assert_eq!(apply_list_operation(&mut v, &ListOperation::Update, Some(1), Some(Ok(2)), None), Ok(()));
    assert_eq!(v, vec![1, 2, 3]);
}

#[test]
fn detects_read_only_questions() {
    assert!(!is_mutation_request("comment je m'appelle ? c'est quoi l'offre ?"));
    assert!(!is_mutation_request("tu vois l'offre, mon cv et ma lettre de motivation ?"));
}

#[test]
fn detects_mutation_requests() {
    assert!(is_mutation_request("modifie mon CV pour mieux mettre mon titre"));
    assert!(is_mutation_request("ajoute une expérience dans la lettre"));
}

#[test]
fn push_chat_history_trims_old_entries() {
    let mut notes = JsonValue::Object(vec![]);

    for idx in 0..=candidature::chat_history::MAX_CHAT_HISTORY_ENTRIES {
        candidature::chat_history::push_chat_history(&mut notes, "user", &format!("message-{idx}"));
    }

    let history = match notes.get_key("chat_history") {
        Some(JsonValue::Array(items)) => items,
        _ => panic!("chat history should exist"),
    };

    assert_eq!(history.len(), candidature::chat_history::MAX_CHAT_HISTORY_ENTRIES);
    assert_eq!(
        history.first().and_then(|entry| entry.get_key("content")),
        Some(&JsonValue::Str("message-1".to_string()))
    );
    assert_eq!(
        history.last().and_then(|entry| entry.get_key("content")),
        Some(&JsonValue::Str(format!("message-{}", candidature::chat_history::MAX_CHAT_HISTORY_ENTRIES)))
    );
}
