use candidature::conversation::{
    absorb_chunk, applying_event, assistant_message, next_round, round_limit_error, run_tool,
    update_documents, ChatEvent, NextRound, Turn, MAX_TOOL_ITERATIONS,
};
use candidature::json::{JsonValue, Member};
use candidature::llm::{MessageContent, Role, StopReason, StreamChunk, ToolCall};

fn s(v: &str) -> JsonValue {
    JsonValue::Str(v.to_string())
}

fn obj(members: Vec<(&str, JsonValue)>) -> JsonValue {
    JsonValue::Object(
        members.into_iter().map(|(k, v)| Member { key: k.to_string(), value: v }).collect(),
    )
}

fn at<'a>(v: &'a JsonValue, path: &[&str]) -> Option<&'a JsonValue> {
    let mut cur = v;
    for k in path {
        cur = cur.get_key(k)?;
    }
    Some(cur)
}

fn text_at(v: &JsonValue, path: &[&str]) -> Option<String> {
    match at(v, path) {
        Some(JsonValue::Str(t)) => Some(t.clone()),
        _ => None,
    }
}

fn len_at(v: &JsonValue, path: &[&str]) -> Option<usize> {
    match at(v, path) {
        Some(JsonValue::Array(items)) => Some(items.len()),
        _ => None,
    }
}

fn experience(poste: &str) -> JsonValue {
    obj(vec![("poste", s(poste)), ("entreprise", s("A")), ("periode", s("2023"))])
}

fn resume() -> JsonValue {
    obj(vec![
        ("identite", obj(vec![("nom_complet", s("Romeo"))])),
        ("accroche", obj(vec![("titre", s("resume")), ("paragraphe", s("p"))])),
        ("contact", obj(vec![("email", s("r@example.com"))])),
        ("experiences", JsonValue::Array(vec![experience("Dev 1"), experience("Dev 2")])),
        ("formations", JsonValue::Array(vec![])),
        ("projets", JsonValue::Array(vec![])),
        ("competences", JsonValue::Array(vec![])),
        ("langues", JsonValue::Array(vec![])),
    ])
}

fn cover() -> JsonValue {
    obj(vec![
        ("expediteur", obj(vec![])),
        ("destinataire", obj(vec![("entreprise", s("Safran"))])),
        ("objet", obj(vec![("libelle", s("cover"))])),
        ("paragraphes", JsonValue::Array(vec![s("Bonjour")])),
    ])
}

fn call(name: &str, arguments: JsonValue) -> ToolCall {
    ToolCall { id: "call_1".to_string(), name: name.to_string(), arguments }
}

#[test]
fn update_documents_merge_preserves_unmodified_fields() {
    let args = obj(vec![
        ("resume", obj(vec![("accroche", obj(vec![("titre", s("partial update"))]))])),
        ("commit_message", s("titre")),
    ]);
    let effect = update_documents(&args, &resume(), &cover(), "demande");
    let r = effect.resume.expect("résumé patched");
    assert_eq!(text_at(&r, &["accroche", "titre"]).as_deref(), Some("partial update"));
    assert_eq!(text_at(&r, &["accroche", "paragraphe"]).as_deref(), Some("p"));
    assert_eq!(text_at(&r, &["identite", "nom_complet"]).as_deref(), Some("Romeo"));
    assert!(effect.cover.is_none());
    assert_eq!(effect.commit_message.as_deref(), Some("titre"));
    assert_eq!(effect.reply, "Modifications appliquées avec succès.");
}

#[test]
fn update_documents_does_not_replace_arrays() {
    let args = obj(vec![(
        "resume",
        obj(vec![("experiences", JsonValue::Array(vec![experience("Nouveau")]))]),
    )]);
    let effect = update_documents(&args, &resume(), &cover(), "demande");
    assert!(effect.resume.is_none());
    assert!(effect.commit_message.is_none());
    assert_eq!(
        effect.reply,
        "Erreur: Mutation de liste non autorisée via update_documents sur $.resume.experiences Utilise edit_resume_list/edit_cover_list pour les listes."
    );
}

#[test]
fn update_documents_rejects_object_patch_on_list_fields() {
    let args = obj(vec![("resume", obj(vec![("experiences", obj(vec![("poste", s("X"))]))]))]);
    let effect = update_documents(&args, &resume(), &cover(), "demande");
    assert!(effect.resume.is_none());
    assert!(effect.reply.starts_with("Erreur: Mutation de liste"));
}

#[test]
fn update_documents_is_atomic_on_resume_and_cover() {
    let args = obj(vec![
        ("resume", obj(vec![("accroche", obj(vec![("titre", s("changed"))]))])),
        ("cover", obj(vec![("paragraphes", JsonValue::Array(vec![]))])),
    ]);
    let effect = update_documents(&args, &resume(), &cover(), "demande");
    assert!(effect.resume.is_none());
    assert!(effect.cover.is_none());
    assert!(effect.reply.contains("$.cover.paragraphes"));
}

#[test]
fn update_documents_without_patch_changes_nothing() {
    let args = obj(vec![("resume", JsonValue::Null), ("message", s("rien"))]);
    let effect = update_documents(&args, &resume(), &cover(), "demande");
    assert!(effect.resume.is_none() && effect.cover.is_none());
    assert_eq!(effect.reply, "Aucune modification détectée.");
}

#[test]
fn update_documents_falls_back_on_request_for_commit_message() {
    let args = obj(vec![("cover", obj(vec![("objet", obj(vec![("libelle", s("new"))]))]))]);
    let effect = update_documents(&args, &resume(), &cover(), "la demande");
    assert_eq!(effect.commit_message.as_deref(), Some("la demande"));
    let c = effect.cover.unwrap();
    assert_eq!(text_at(&c, &["objet", "libelle"]).as_deref(), Some("new"));
    assert_eq!(len_at(&c, &["paragraphes"]), Some(1));
}

#[test]
fn edit_resume_list_adds_experience() {
    let args = obj(vec![
        ("target", s("experiences")),
        ("operation", s("add")),
        ("item", experience("Dev Rust")),
        ("commit_message", s("ajout")),
    ]);
    let effect = run_tool(&call("edit_resume_list", args), &resume(), &cover(), "demande");
    assert!(effect.announced);
    let r = effect.resume.expect("list edited");
    assert_eq!(len_at(&r, &["experiences"]), Some(3));
    assert_eq!(effect.commit_message.as_deref(), Some("ajout"));
    assert_eq!(effect.reply, "Liste CV mise à jour avec succès.");
}

#[test]
fn edit_resume_list_on_missing_list_starts_empty() {
    let args = obj(vec![
        ("target", s("langues")),
        ("operation", s("add")),
        ("item", obj(vec![("langue", s("Anglais"))])),
        ("commit_message", s("langue")),
    ]);
    let effect = run_tool(&call("edit_resume_list", args), &resume(), &cover(), "demande");
    assert_eq!(len_at(&effect.resume.unwrap(), &["langues"]), Some(1));
}

#[test]
fn invalid_edit_resume_list_reports_validation_error() {
    let args = obj(vec![
        ("target", s("experiences")),
        ("operation", s("remove")),
        ("index", JsonValue::Number("7".to_string())),
        ("commit_message", s("suppression")),
    ]);
    let effect = run_tool(&call("edit_resume_list", args), &resume(), &cover(), "demande");
    assert!(effect.resume.is_none());
    assert_eq!(effect.reply, "Erreur de validation: index 7 hors limites (taille actuelle: 2)");
    let args = obj(vec![("target", s("skills")), ("operation", s("add")), ("commit_message", s("x"))]);
    let effect = run_tool(&call("edit_resume_list", args), &resume(), &cover(), "demande");
    assert_eq!(effect.reply, "Erreur de validation: argument invalide : target");
}

#[test]
fn edit_cover_list_replaces_paragraphs() {
    let args = obj(vec![
        ("target", s("paragraphes")),
        ("operation", s("replace")),
        ("items", JsonValue::Array(vec![s("A"), s("B")])),
        ("commit_message", s("réécriture")),
    ]);
    let effect = run_tool(&call("edit_cover_list", args), &resume(), &cover(), "demande");
    assert_eq!(len_at(&effect.cover.unwrap(), &["paragraphes"]), Some(2));
    assert_eq!(effect.reply, "Liste lettre mise à jour avec succès.");
}

#[test]
fn unknown_tool_is_reported() {
    let effect = run_tool(&call("delete_everything", obj(vec![])), &resume(), &cover(), "demande");
    assert!(!effect.announced);
    assert_eq!(effect.reply, "Tool inconnu: delete_everything");
}

#[test]
fn streamed_answer_is_gathered() {
    let mut turn = Turn::new();
    let mut full = String::from("avant ");
    let e = absorb_chunk(&mut turn, &mut full, StreamChunk::TextDelta { text: "Bon".to_string() });
    assert_eq!(e, Some(ChatEvent::Token("Bon".to_string())));
    absorb_chunk(&mut turn, &mut full, StreamChunk::TextDelta { text: "jour".to_string() });
    let e = absorb_chunk(
        &mut turn,
        &mut full,
        StreamChunk::ToolCallStart { id: "t1".to_string(), name: "update_documents".to_string() },
    );
    assert_eq!(e, Some(ChatEvent::Status("L'IA prépare des modifications...".to_string())));
    absorb_chunk(
        &mut turn,
        &mut full,
        StreamChunk::ToolCallEnd { id: "t1".to_string(), name: "update_documents".to_string(), arguments: obj(vec![]) },
    );
    absorb_chunk(&mut turn, &mut full, StreamChunk::Done { stop_reason: StopReason::ToolUse });
    assert_eq!(turn.text, "Bonjour");
    assert_eq!(full, "avant Bonjour");
    assert_eq!(turn.tool_calls.len(), 1);
    assert_eq!(turn.stop_reason, StopReason::ToolUse);
    let m = assistant_message(&turn).unwrap();
    assert_eq!(m.role, Role::Assistant);
    assert_eq!(m.content.len(), 2);
    assert!(matches!(&m.content[0], MessageContent::Text(t) if t == "Bonjour"));
    assert!(matches!(&m.content[1], MessageContent::ToolUse { id, .. } if id == "t1"));
    assert!(assistant_message(&Turn::new()).is_none());
}

#[test]
fn rounds_stop_unless_tools_are_used() {
    assert_eq!(next_round(&StopReason::EndTurn, 0), NextRound::Finish);
    assert_eq!(next_round(&StopReason::ToolUse, 0), NextRound::Continue);
    assert_eq!(next_round(&StopReason::ToolUse, MAX_TOOL_ITERATIONS - 1), NextRound::Abort);
    assert_eq!(
        round_limit_error(),
        ChatEvent::Error("Nombre maximal d'itérations atteint. Arrêt de sécurité.".to_string())
    );
    assert_eq!(applying_event(), ChatEvent::Status("Application des modifications...".to_string()));
}

#[test]
fn update_documents_refuses_a_patch_that_is_not_a_document() {
    let args = obj(vec![("resume", s("x"))]);
    let effect = update_documents(&args, &resume(), &cover(), "demande");
    assert!(effect.resume.is_none() && effect.cover.is_none());
    assert!(effect.reply.starts_with("Erreur: Désérialisation Resume échouée"));
    let args = obj(vec![("cover", obj(vec![("objet", s("plat"))]))]);
    let effect = update_documents(&args, &resume(), &cover(), "demande");
    assert!(effect.cover.is_none());
    assert!(effect.reply.starts_with("Erreur: Désérialisation CoverLetter échouée"));
}
